//! The record kept for each trashed item.

use vstd::prelude::*;
use crate::clock::{deletion_instant, wall_clock_seconds};
use crate::expiry::{expired, is_expired};

verus! {

/// The record of one trashed item.
#[derive(Debug)]
pub struct FileMeta {
    /// Where the item was deleted from, and where a restore puts it back.
    pub original_path: String,
    /// Where the item's copy lives inside the trash area.
    pub trash_path: String,
    /// The local wall-clock time of deletion, `YYYY-MM-DD HH:MM:SS`.
    pub delete_time: String,
    /// The instant of deletion in Unix seconds, as resolved from
    /// `delete_time`; `None` when that text cannot be understood.
    pub deleted_at: Option<i64>,
    /// The number of days after deletion at which the entry expires.
    pub expire_days: i64,
    /// Whether the item is a directory.
    pub is_dir: bool,
}

/// The mathematical content of a `FileMeta`.
pub struct MetaView {
    pub original_path: Seq<char>,
    pub trash_path: Seq<char>,
    pub delete_time: Seq<char>,
    pub deleted_at: Option<i64>,
    pub expire_days: i64,
    pub is_dir: bool,
}

impl MetaView {
    /// Whether the entry is due for removal at `now`: it is expired, or its
    /// deletion time cannot be understood, which counts as corrupt.
    pub open spec fn due(self, now: int) -> bool {
        match self.deleted_at {
            Some(at) => is_expired(at as int, self.expire_days as int, now),
            None => true,
        }
    }
}

impl View for FileMeta {
    type V = MetaView;

    open spec fn view(&self) -> MetaView {
        MetaView {
            original_path: self.original_path@,
            trash_path: self.trash_path@,
            delete_time: self.delete_time@,
            deleted_at: self.deleted_at,
            expire_days: self.expire_days,
            is_dir: self.is_dir,
        }
    }
}

impl Clone for FileMeta {
    fn clone(&self) -> (copy: FileMeta)
        ensures
            copy@ == self@,
    {
        FileMeta {
            original_path: self.original_path.clone(),
            trash_path: self.trash_path.clone(),
            delete_time: self.delete_time.clone(),
            deleted_at: self.deleted_at,
            expire_days: self.expire_days,
            is_dir: self.is_dir,
        }
    }
}

impl FileMeta {
    /// Builds a record from its stored fields and resolves the deletion time
    /// against the local clock. Text that is not a wall-clock reading leaves
    /// `deleted_at` empty.
    pub fn new(
        original_path: String,
        trash_path: String,
        delete_time: String,
        expire_days: i64,
        is_dir: bool,
    ) -> (meta: FileMeta)
        ensures
            meta@.original_path == original_path@,
            meta@.trash_path == trash_path@,
            meta@.delete_time == delete_time@,
            meta@.expire_days == expire_days,
            meta@.is_dir == is_dir,
            wall_clock_seconds(delete_time@) is None ==> meta@.deleted_at is None,
    {
        let deleted_at = deletion_instant(delete_time.as_str());
        FileMeta { original_path, trash_path, delete_time, deleted_at, expire_days, is_dir }
    }

    /// Whether the entry is due for removal at `now`.
    pub fn is_due(&self, now: i64) -> (b: bool)
        ensures
            b == self@.due(now as int),
    {
        match self.deleted_at {
            Some(at) => expired(at, self.expire_days, now),
            None => true,
        }
    }
}

} // verus!
