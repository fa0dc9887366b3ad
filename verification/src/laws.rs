//! What holds of the operations together.
//!
//! The properties here relate several functions of the library. Those that
//! speak of the file system are stated against the disk model: a protocol is
//! run by answering each of its actions as a working disk would.

use vstd::prelude::*;
use crate::clean::{cleaned, is_kept, is_selected, kept_after, selected};
use crate::delete::{delete_begin, DeleteStage, DeleteView};
use crate::disk::{after, respond, ActionView, Disk, FsEvent};
use crate::error::TrashError;
use crate::expiry::{expire_time, is_expired, seconds_left, status_of, time_left_of, TimeLeft};
use crate::meta::MetaView;
use crate::paths::is_protected;
use crate::report::is_shown;
use crate::restore::{restore_begin, RestoreStage, RestoreView};
use crate::persist::{collected, first_seen};
use crate::store::{
    as_map,
    distinct_ids,
    has_id,
    ids_of,
    index_of_id,
    lemma_push,
    lists_keys,
    Entry,
};

verus! {

/// A deletion in the model: the run, the disk it works on, and the store.
pub struct DeleteWorld {
    pub run: DeleteView,
    pub disk: Disk,
    pub store: Map<Seq<char>, MetaView>,
}

/// A restore in the model: the run, the disk it works on, and the store.
pub struct RestoreWorld {
    pub run: RestoreView,
    pub disk: Disk,
    pub store: Map<Seq<char>, MetaView>,
}

impl DeleteWorld {
    /// The world after the pending action has been attempted and `event`
    /// reported. A finished run changes nothing.
    pub open spec fn told(self, event: FsEvent) -> DeleteWorld {
        match self.run.action() {
            None => self,
            Some(action) => DeleteWorld {
                run: self.run.advanced(event),
                disk: after(self.disk, action, event),
                store: self.run.store_after(event, self.store),
            },
        }
    }

    /// The world after the pending action has been answered by the disk
    /// itself.
    pub open spec fn step(self) -> DeleteWorld {
        match self.run.action() {
            None => self,
            Some(action) => self.told(respond(self.disk, action)),
        }
    }

    /// The world at the end of the run, when the disk answers every action.
    /// A deletion takes at most three actions.
    pub open spec fn settled(self) -> DeleteWorld {
        self.step().step().step()
    }
}

impl RestoreWorld {
    /// The world after the pending action has been attempted and `event`
    /// reported. A finished run changes nothing.
    pub open spec fn told(self, event: FsEvent) -> RestoreWorld {
        match self.run.action() {
            None => self,
            Some(action) => RestoreWorld {
                run: self.run.advanced(event),
                disk: after(self.disk, action, event),
                store: self.run.store_after(event, self.store),
            },
        }
    }

    /// The world after the pending action has been answered by the disk
    /// itself.
    pub open spec fn step(self) -> RestoreWorld {
        match self.run.action() {
            None => self,
            Some(action) => self.told(respond(self.disk, action)),
        }
    }

    /// The world at the end of the run, when the disk answers every action.
    /// A restore takes at most five actions.
    pub open spec fn settled(self) -> RestoreWorld {
        self.step().step().step().step().step()
    }
}

/// Deleting an item and restoring it again brings back the disk as it was:
/// the item lies at its original path with its original content, the trash
/// holds nothing of it, and the store no longer has the entry. In between,
/// the item is gone from its place, its content lies in the trash, and the
/// store holds the entry under the identifier made of its name and the
/// instant of deletion.
pub proof fn law_delete_then_restore(
    path: Seq<char>,
    is_dir: bool,
    expire_days: i64,
    force: bool,
    trash_dir: Seq<char>,
    unix: i64,
    text: Seq<char>,
    disk: Disk,
    store: Map<Seq<char>, MetaView>,
    restore_force: bool,
)
    requires
        disk.contains_key(path),
        disk[path].is_dir == is_dir,
        delete_begin(true, path, is_dir, expire_days, force, trash_dir, unix, text) is Ok,
        ({
            let run = delete_begin(
                true,
                path,
                is_dir,
                expire_days,
                force,
                trash_dir,
                unix,
                text,
            )->Ok_0;
            run.meta.trash_path != path && !disk.contains_key(run.meta.trash_path)
        }),
    ensures
        ({
            let run = delete_begin(
                true,
                path,
                is_dir,
                expire_days,
                force,
                trash_dir,
                unix,
                text,
            )->Ok_0;
            let deleted = (DeleteWorld { run: run, disk: disk, store: store }).settled();
            let back = restore_begin(run.id, restore_force, deleted.store);
            let restored = (RestoreWorld {
                run: back->Ok_0,
                disk: deleted.disk,
                store: deleted.store,
            }).settled();
            &&& deleted.run.outcome() == Some(Ok::<(), TrashError>(()))
            &&& !deleted.disk.contains_key(path)
            &&& deleted.disk.contains_key(run.meta.trash_path)
            &&& deleted.disk[run.meta.trash_path] == disk[path]
            &&& deleted.store == store.insert(run.id, run.meta)
            &&& back is Ok
            &&& restored.run.outcome() == Some(Ok::<(), TrashError>(()))
            &&& restored.disk == disk
            &&& restored.store == store.remove(run.id)
        }),
{
    let run = delete_begin(true, path, is_dir, expire_days, force, trash_dir, unix, text)->Ok_0;
    let trash = run.meta.trash_path;
    let w0 = DeleteWorld { run: run, disk: disk, store: store };
    let w1 = w0.step();
    assert(w1.run.stage == DeleteStage::Removing);
    assert(w1.disk == disk.insert(trash, disk[path]));
    let w2 = w1.step();
    assert(w2.run.stage == DeleteStage::Succeeded);
    assert(w2.disk == disk.insert(trash, disk[path]).remove(path));
    assert(w2.step() == w2);
    let deleted = w0.settled();
    assert(deleted == w2);
    let back = restore_begin(run.id, restore_force, deleted.store);
    let r0 = RestoreWorld { run: back->Ok_0, disk: deleted.disk, store: deleted.store };
    assert(r0.run.meta == run.meta);
    let r1 = r0.step();
    assert(r1.run.stage == RestoreStage::ProbeTarget);
    let r2 = r1.step();
    assert(r2.run.stage == RestoreStage::CopyBack);
    let r3 = r2.step();
    assert(r3.run.stage == RestoreStage::RemoveTrash);
    let r4 = r3.step();
    assert(r4.run.stage == RestoreStage::Succeeded);
    assert(r4.step() == r4);
    assert(r4.disk =~= disk);
    assert(r4.store =~= store.remove(run.id));
}

/// A protected path is refused without `force`, before anything is asked
/// of the file system or the store. With `force` the deletion goes ahead
/// and, on a working disk, ends with the item in the trash and its entry in
/// the store.
pub proof fn law_protected_paths(
    path: Seq<char>,
    is_dir: bool,
    expire_days: i64,
    trash_dir: Seq<char>,
    unix: i64,
    text: Seq<char>,
    disk: Disk,
    store: Map<Seq<char>, MetaView>,
)
    requires
        is_protected(path),
        disk.contains_key(path),
        disk[path].is_dir == is_dir,
    ensures
        delete_begin(true, path, is_dir, expire_days, false, trash_dir, unix, text) == Err::<
            DeleteView,
            TrashError,
        >(TrashError::Protected),
        delete_begin(true, path, is_dir, expire_days, true, trash_dir, unix, text) is Ok,
        ({
            let run = delete_begin(
                true,
                path,
                is_dir,
                expire_days,
                true,
                trash_dir,
                unix,
                text,
            )->Ok_0;
            let deleted = (DeleteWorld { run: run, disk: disk, store: store }).settled();
            &&& deleted.run.outcome() == Some(Ok::<(), TrashError>(()))
            &&& !deleted.disk.contains_key(path)
            &&& deleted.store == store.insert(run.id, run.meta)
            &&& run.meta.trash_path != path ==> deleted.disk.contains_key(run.meta.trash_path)
                && deleted.disk[run.meta.trash_path] == disk[path]
        }),
{
    let run = delete_begin(true, path, is_dir, expire_days, true, trash_dir, unix, text)->Ok_0;
    let w0 = DeleteWorld { run: run, disk: disk, store: store };
    let w1 = w0.step();
    assert(w1.run.stage == DeleteStage::Removing);
    let w2 = w1.step();
    assert(w2.run.stage == DeleteStage::Succeeded);
    assert(w2.step() == w2);
}

/// The listing filter, the cleanup and the expiry check draw the line of
/// expiry at the same instant: an entry deleted at `deleted_at` and kept for
/// `days` days is expired exactly when `now` lies after
/// `deleted_at + days` days. The expiry check agrees at every instant but
/// the instant of expiry itself, at which it already reports no time left.
pub proof fn law_expiry_boundary(
    id: Seq<char>,
    meta: MetaView,
    store: Map<Seq<char>, MetaView>,
    deleted_at: i64,
    now: int,
)
    requires
        meta.deleted_at == Some(deleted_at),
        store.contains_key(id),
        store[id] == meta,
    ensures
        is_expired(deleted_at as int, meta.expire_days as int, now) <==> now > deleted_at
            + meta.expire_days * 86_400,
        selected(meta, now, false) == is_expired(deleted_at as int, meta.expire_days as int, now),
        is_shown(store, now, true)(id) == is_expired(
            deleted_at as int,
            meta.expire_days as int,
            now,
        ),
        now != expire_time(deleted_at as int, meta.expire_days as int) ==> (status_of(
            seconds_left(deleted_at as int, meta.expire_days as int, now),
        ) is Expired <==> is_expired(deleted_at as int, meta.expire_days as int, now)),
        is_expired(deleted_at as int, meta.expire_days as int, now) ==> time_left_of(
            seconds_left(deleted_at as int, meta.expire_days as int, now),
        ) == TimeLeft::Expired,
{
}

/// If the original cannot be removed after it has been copied, the trash
/// copy is removed again and the deletion fails: the store gains no entry,
/// and once the trash copy is gone the disk is as it was before, with the
/// original in its place. A copy that fails is followed by the same removal
/// and the same failure.
pub proof fn law_rollback(
    path: Seq<char>,
    is_dir: bool,
    expire_days: i64,
    force: bool,
    trash_dir: Seq<char>,
    unix: i64,
    text: Seq<char>,
    disk: Disk,
    store: Map<Seq<char>, MetaView>,
)
    requires
        disk.contains_key(path),
        disk[path].is_dir == is_dir,
        delete_begin(true, path, is_dir, expire_days, force, trash_dir, unix, text) is Ok,
        ({
            let run = delete_begin(
                true,
                path,
                is_dir,
                expire_days,
                force,
                trash_dir,
                unix,
                text,
            )->Ok_0;
            run.meta.trash_path != path && !disk.contains_key(run.meta.trash_path)
        }),
    ensures
        ({
            let run = delete_begin(
                true,
                path,
                is_dir,
                expire_days,
                force,
                trash_dir,
                unix,
                text,
            )->Ok_0;
            let start = DeleteWorld { run: run, disk: disk, store: store };
            let copied = start.step();
            let stuck = copied.told(FsEvent::Failed);
            let undone = stuck.step();
            let uncopied = start.told(FsEvent::Failed);
            &&& uncopied.run.action() == Some(
                ActionView::Remove { path: run.meta.trash_path, tree: is_dir },
            )
            &&& uncopied.disk == disk
            &&& uncopied.step().run.outcome() == Some(
                Err::<(), TrashError>(TrashError::IoFailure),
            )
            &&& uncopied.step().store == store
            &&& uncopied.step().disk == disk
            &&& copied.run.action() == Some(
                ActionView::Remove { path: path, tree: is_dir },
            )
            &&& stuck.run.action() == Some(
                ActionView::Remove { path: run.meta.trash_path, tree: is_dir },
            )
            &&& stuck.disk.contains_key(path)
            &&& stuck.disk[path] == disk[path]
            &&& stuck.store == store
            &&& undone.run.outcome() == Some(Err::<(), TrashError>(TrashError::IoFailure))
            &&& undone.store == store
            &&& undone.disk == disk
        }),
{
    let run = delete_begin(true, path, is_dir, expire_days, force, trash_dir, unix, text)->Ok_0;
    let trash = run.meta.trash_path;
    let copied = (DeleteWorld { run: run, disk: disk, store: store }).step();
    assert(copied.run.stage == DeleteStage::Removing);
    let stuck = copied.told(FsEvent::Failed);
    assert(stuck.run.stage == DeleteStage::RollingBack);
    assert(stuck.disk == disk.insert(trash, disk[path]));
    let undone = stuck.step();
    assert(undone.disk =~= disk);
}

/// When a restore is refused. On a working disk a restore fails with
/// `NotFound` exactly when the store has no such entry, with
/// `MissingContent` exactly when the entry's trash copy is gone, and with
/// `Conflict` exactly when the copy is there, the original place is taken
/// and `force` is not given. A refused restore changes neither the disk nor
/// the store.
pub proof fn law_restore_refusals(
    id: Seq<char>,
    force: bool,
    disk: Disk,
    store: Map<Seq<char>, MetaView>,
)
    ensures
        restore_begin(id, force, store) is Err <==> !store.contains_key(id),
        restore_begin(id, force, store) is Err ==> restore_begin(id, force, store)->Err_0
            == TrashError::NotFound,
        store.contains_key(id) ==> ({
            let run = restore_begin(id, force, store)->Ok_0;
            let end = (RestoreWorld { run: run, disk: disk, store: store }).settled();
            let copy_there = disk.contains_key(store[id].trash_path);
            let place_taken = disk.contains_key(store[id].original_path);
            &&& end.run.outcome() is Some
            &&& end.run.outcome() != Some(Err::<(), TrashError>(TrashError::NotFound))
            &&& end.run.outcome() == Some(Err::<(), TrashError>(TrashError::MissingContent))
                <==> !copy_there
            &&& end.run.outcome() == Some(Err::<(), TrashError>(TrashError::Conflict)) <==> (
            copy_there && place_taken && !force)
            &&& !copy_there || (place_taken && !force) ==> end.disk == disk && end.store == store
        }),
{
    if store.contains_key(id) {
        let run = restore_begin(id, force, store)->Ok_0;
        let r0 = RestoreWorld { run: run, disk: disk, store: store };
        let r1 = r0.step();
        let r2 = r1.step();
        let r3 = r2.step();
        let r4 = r3.step();
        let r5 = r4.step();
        assert(r5 == r0.settled());
        if !disk.contains_key(store[id].trash_path) {
            assert(r1.run.stage == RestoreStage::Failed(TrashError::MissingContent));
            assert(r5 == r1);
        } else if disk.contains_key(store[id].original_path) && !force {
            assert(r2.run.stage == RestoreStage::Failed(TrashError::Conflict));
            assert(r5 == r2);
        } else if disk.contains_key(store[id].original_path) {
            assert(r2.run.stage is ClearTarget);
            assert(r3.run.stage == RestoreStage::CopyBack);
            assert(r4.run.stage == RestoreStage::RemoveTrash || r4.run.stage
                == RestoreStage::Failed(TrashError::IoFailure));
            assert(r5.run.outcome() is Some);
        } else {
            assert(r2.run.stage == RestoreStage::CopyBack);
            assert(r3.run.stage == RestoreStage::RemoveTrash || r3.run.stage
                == RestoreStage::Failed(TrashError::IoFailure));
            assert(r4.run.outcome() is Some);
            assert(r5 == r4);
        }
    }
}

/// Every entry of the store has its copy on the disk.
pub open spec fn backed(disk: Disk, store: Map<Seq<char>, MetaView>) -> bool {
    forall|id: Seq<char>| store.contains_key(id) ==> disk.contains_key(#[trigger] store[id].trash_path)
}

/// A store whose entries all have their copies keeps that property through
/// a deletion, a restore and a cleanup on a working disk, as long as the
/// paths that the operation writes or removes are not the trash copies of
/// other entries: an entry is added only once its copy exists, and it is
/// dropped no later than its copy.
pub proof fn law_entries_stay_backed(
    delete: DeleteView,
    restore: RestoreView,
    disk: Disk,
    store: Map<Seq<char>, MetaView>,
    later: Map<Seq<char>, MetaView>,
    now: int,
    clean_all: bool,
)
    requires
        backed(disk, store),
    ensures
        delete.stage == DeleteStage::Copying && delete.meta.trash_path != delete.meta.original_path
            && (forall|id: Seq<char>|
            store.contains_key(id) ==> #[trigger] store[id].trash_path
                != delete.meta.original_path && store[id].trash_path != delete.meta.trash_path)
            ==> ({
            let end = (DeleteWorld { run: delete, disk: disk, store: store }).settled();
            backed(end.disk, end.store)
        }),
        restore_begin(restore.id, restore.force, store) == Ok::<RestoreView, TrashError>(restore)
            && restore.meta.trash_path != restore.meta.original_path && (forall|id: Seq<char>|
            store.contains_key(id) && id != restore.id ==> #[trigger] store[id].trash_path
                != restore.meta.trash_path && store[id].trash_path != restore.meta.original_path)
            ==> ({
            let end = (RestoreWorld { run: restore, disk: disk, store: store }).settled();
            backed(end.disk, end.store)
        }),
        later == kept_after(store, now, clean_all) ==> backed(disk, later),
{
    if delete.stage == DeleteStage::Copying && delete.meta.trash_path != delete.meta.original_path
        && (forall|id: Seq<char>|
        store.contains_key(id) ==> #[trigger] store[id].trash_path != delete.meta.original_path
            && store[id].trash_path != delete.meta.trash_path) {
        let w0 = DeleteWorld { run: delete, disk: disk, store: store };
        let w1 = w0.step();
        let w2 = w1.step();
        let w3 = w2.step();
        assert forall|id: Seq<char>| w3.store.contains_key(id) implies w3.disk.contains_key(
            #[trigger] w3.store[id].trash_path,
        ) by {
            if store.contains_key(id) {
                assert(disk.contains_key(store[id].trash_path));
            }
        }
    }
    if restore_begin(restore.id, restore.force, store) == Ok::<RestoreView, TrashError>(restore)
        && restore.meta.trash_path != restore.meta.original_path && (forall|id: Seq<char>|
        store.contains_key(id) && id != restore.id ==> #[trigger] store[id].trash_path
            != restore.meta.trash_path && store[id].trash_path != restore.meta.original_path) {
        let r0 = RestoreWorld { run: restore, disk: disk, store: store };
        let r1 = r0.step();
        let r2 = r1.step();
        let r3 = r2.step();
        let r4 = r3.step();
        let r5 = r4.step();
        assert(disk.contains_key(store[restore.id].trash_path));
        assert forall|id: Seq<char>| r5.store.contains_key(id) implies r5.disk.contains_key(
            #[trigger] r5.store[id].trash_path,
        ) by {
            assert(store.contains_key(id));
            assert(disk.contains_key(store[id].trash_path));
        }
    }
    if later == kept_after(store, now, clean_all) {
        assert forall|id: Seq<char>| later.contains_key(id) implies disk.contains_key(
            #[trigger] later[id].trash_path,
        ) by {
            assert(disk.contains_key(store[id].trash_path));
        }
    }
}

/// What is saved loads back unchanged: for entries with distinct
/// identifiers, loading gives the mapping and the order that saving wrote
/// down.
pub proof fn law_save_then_load(entries: Seq<Entry>)
    requires
        distinct_ids(entries),
    ensures
        collected(entries) == as_map(entries),
        first_seen(entries) == ids_of(entries),
    decreases entries.len(),
{
    if entries.len() == 0 {
        assert(as_map(entries) =~= Map::<Seq<char>, MetaView>::empty());
        assert(ids_of(entries) =~= Seq::<Seq<char>>::empty());
    } else {
        let front = entries.drop_last();
        let last = entries.last();
        assert forall|i: int, j: int| 0 <= i < j < front.len() implies (#[trigger] front[i]).id@ != (
        #[trigger] front[j]).id@ by {
            assert(entries[i].id@ != entries[j].id@);
        }
        law_save_then_load(front);
        assert(!has_id(front, last.id@)) by {
            if has_id(front, last.id@) {
                let i = index_of_id(front, last.id@);
                assert(entries[i].id@ != entries[entries.len() - 1].id@);
            }
        }
        lemma_push(front, last);
        assert(front.push(last) =~= entries);
    }
}

/// A filter that every element passes changes nothing.
proof fn lemma_filter_all<A>(s: Seq<A>, pred: spec_fn(A) -> bool)
    requires
        forall|i: int| 0 <= i < s.len() ==> pred(#[trigger] s[i]),
    ensures
        s.filter(pred) == s,
    decreases s.len(),
{
    reveal(Seq::filter);
    if s.len() > 0 {
        let front = s.drop_last();
        assert forall|i: int| 0 <= i < front.len() implies pred(#[trigger] front[i]) by {
            assert(front[i] == s[i]);
        }
        lemma_filter_all(front, pred);
        assert(front.push(s.last()) =~= s);
    }
}

/// A filter that no element passes leaves nothing.
proof fn lemma_filter_none<A>(s: Seq<A>, pred: spec_fn(A) -> bool)
    requires
        forall|i: int| 0 <= i < s.len() ==> !pred(#[trigger] s[i]),
    ensures
        s.filter(pred) == Seq::<A>::empty(),
    decreases s.len(),
{
    reveal(Seq::filter);
    if s.len() > 0 {
        let front = s.drop_last();
        assert forall|i: int| 0 <= i < front.len() implies !pred(#[trigger] front[i]) by {
            assert(front[i] == s[i]);
        }
        lemma_filter_none(front, pred);
    }
}

/// A cleanup that is run twice at the same instant drops nothing the
/// second time: what the first run kept, the second keeps, in the same
/// order.
pub proof fn law_clean_twice(
    before: Map<Seq<char>, MetaView>,
    before_ids: Seq<Seq<char>>,
    between: Map<Seq<char>, MetaView>,
    between_ids: Seq<Seq<char>>,
    first: Seq<Entry>,
    after: Map<Seq<char>, MetaView>,
    after_ids: Seq<Seq<char>>,
    second: Seq<Entry>,
    now: int,
)
    requires
        lists_keys(before_ids, before),
        cleaned(before, before_ids, between, between_ids, first, now, false),
        cleaned(between, between_ids, after, after_ids, second, now, false),
    ensures
        second.len() == 0,
        after == between,
        after_ids == between_ids,
{
    let keep = is_kept(before, now, false);
    let keep_again = is_kept(between, now, false);
    let select_again = is_selected(between, now, false);
    assert forall|i: int| 0 <= i < between_ids.len() implies keep_again(
        #[trigger] between_ids[i],
    ) && !select_again(between_ids[i]) by {
        let id = between_ids[i];
        assert(before_ids.filter(keep).contains(id));
        before_ids.lemma_filter_contains_rev(keep, id);
        before_ids.lemma_filter_pred(keep, i);
        assert(before.contains_key(id));
        assert(between[id] == before[id]);
    }
    lemma_filter_all(between_ids, keep_again);
    lemma_filter_none(between_ids, select_again);
    assert(ids_of(second).len() == 0);
    assert(after =~= between);
}

} // verus!
