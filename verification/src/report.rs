//! Read-only views of the store: the listing and the expiry check.

use vstd::prelude::*;
use crate::clock::Moment;
use crate::error::TrashError;
use crate::expiry::{
    expire_time,
    expires_at,
    expiry_status,
    seconds_left,
    status_of,
    time_left,
    time_left_of,
    ExpiryStatus,
    TimeLeft,
};
use crate::meta::MetaView;
use crate::store::Store;

verus! {

/// One line of a listing.
#[derive(Debug)]
pub struct ListRow {
    pub name: String,
    pub is_dir: bool,
    pub original_path: String,
    pub delete_time: String,
    pub expire_days: i64,
    pub time_left: TimeLeft,
}

/// The mathematical content of a `ListRow`.
pub struct RowView {
    pub name: Seq<char>,
    pub is_dir: bool,
    pub original_path: Seq<char>,
    pub delete_time: Seq<char>,
    pub expire_days: i64,
    pub time_left: TimeLeft,
}

impl View for ListRow {
    type V = RowView;

    open spec fn view(&self) -> RowView {
        RowView {
            name: self.name@,
            is_dir: self.is_dir,
            original_path: self.original_path@,
            delete_time: self.delete_time@,
            expire_days: self.expire_days,
            time_left: self.time_left,
        }
    }
}

/// The views of a list of rows.
pub open spec fn rows_view(rows: Seq<ListRow>) -> Seq<RowView> {
    Seq::new(rows.len(), |i: int| rows[i]@)
}

/// The remaining-time class of an entry at `now`. An entry whose deletion
/// time cannot be understood has no time left.
pub open spec fn time_left_for(meta: MetaView, now: int) -> TimeLeft {
    match meta.deleted_at {
        Some(at) => time_left_of(seconds_left(at as int, meta.expire_days as int, now)),
        None => TimeLeft::Expired,
    }
}

/// The listing line of the entry `id` with record `meta` at `now`.
pub open spec fn row_of(id: Seq<char>, meta: MetaView, now: int) -> RowView {
    RowView {
        name: id,
        is_dir: meta.is_dir,
        original_path: meta.original_path,
        delete_time: meta.delete_time,
        expire_days: meta.expire_days,
        time_left: time_left_for(meta, now),
    }
}

/// The test "the entry under this identifier appears in the listing": every
/// entry does, unless only those due for removal are asked for.
pub open spec fn is_shown(store: Map<Seq<char>, MetaView>, now: int, only_expired: bool) -> spec_fn(
    Seq<char>,
) -> bool {
    |id: Seq<char>| !only_expired || store[id].due(now)
}

/// The function that makes the listing line for an identifier.
pub open spec fn to_row(store: Map<Seq<char>, MetaView>, now: int) -> spec_fn(Seq<char>) -> RowView {
    |id: Seq<char>| row_of(id, store[id], now)
}

/// The listing of a store with content `store` and order `ids` at `now`.
pub open spec fn listing(
    ids: Seq<Seq<char>>,
    store: Map<Seq<char>, MetaView>,
    now: int,
    only_expired: bool,
) -> Seq<RowView> {
    ids.filter(is_shown(store, now, only_expired)).map_values(to_row(store, now))
}

/// Lists the entries of `store` as they stand at `now`, in listing order.
/// With `only_expired`, entries that are not yet due for removal are left
/// out.
pub fn list_at(store: &Store, now: i64, only_expired: bool) -> (rows: Vec<ListRow>)
    ensures
        rows_view(rows@) == listing(store.ids(), store@, now as int, only_expired),
{
    let n = store.len();
    let ghost ids = store.ids();
    let ghost shown = is_shown(store@, now as int, only_expired);
    let ghost row = to_row(store@, now as int);
    let mut rows: Vec<ListRow> = Vec::new();
    let mut i: usize = 0;
    proof {
        assert(ids.take(0) =~= Seq::<Seq<char>>::empty());
        assert(rows_view(rows@) =~= ids.take(0).filter(shown).map_values(row));
    }
    while i < n
        invariant
            i <= n,
            n == store.ids().len(),
            ids == store.ids(),
            shown == is_shown(store@, now as int, only_expired),
            row == to_row(store@, now as int),
            rows_view(rows@) == ids.take(i as int).filter(shown).map_values(row),
        decreases n - i,
    {
        let id = store.id_at(i);
        let meta = store.meta_at(i);
        proof {
            assert(ids.take(i + 1) =~= ids.take(i as int).push(id@));
            ids.take(i as int).lemma_filter_push(id@, shown);
        }
        if !only_expired || meta.is_due(now) {
            let ghost before = rows@;
            let left = match meta.deleted_at {
                Some(at) => time_left(at, meta.expire_days, now),
                None => TimeLeft::Expired,
            };
            rows.push(
                ListRow {
                    name: id.clone(),
                    is_dir: meta.is_dir,
                    original_path: meta.original_path.clone(),
                    delete_time: meta.delete_time.clone(),
                    expire_days: meta.expire_days,
                    time_left: left,
                },
            );
            proof {
                let picked = ids.take(i as int).filter(shown);
                assert(rows_view(rows@) =~= rows_view(before).push(row(id@)));
                assert(picked.push(id@).map_values(row) =~= picked.map_values(row).push(row(id@)));
            }
        }
        i += 1;
    }
    proof {
        assert(ids.take(n as int) =~= ids);
    }
    rows
}

/// Lists the entries of `store` as they stand now.
pub fn handle_list(store: &Store, only_expired: bool) -> (rows: Vec<ListRow>)
    ensures
        exists|now: int| rows_view(rows@) == #[trigger] listing(
            store.ids(),
            store@,
            now,
            only_expired,
        ),
{
    let now = Moment::now().unix;
    list_at(store, now, only_expired)
}

/// What an expiry check reports about one entry.
#[derive(Debug)]
pub struct ExpiryReport {
    pub original_path: String,
    pub delete_time: String,
    /// The instant of expiry in Unix seconds.
    pub expire_time: i128,
    pub status: ExpiryStatus,
}

/// The mathematical content of an `ExpiryReport`.
pub struct ReportView {
    pub original_path: Seq<char>,
    pub delete_time: Seq<char>,
    pub expire_time: int,
    pub status: ExpiryStatus,
}

impl View for ExpiryReport {
    type V = ReportView;

    open spec fn view(&self) -> ReportView {
        ReportView {
            original_path: self.original_path@,
            delete_time: self.delete_time@,
            expire_time: self.expire_time as int,
            status: self.status,
        }
    }
}

/// The view of a report that may have been refused.
pub open spec fn reported(r: Result<ExpiryReport, TrashError>) -> Result<ReportView, TrashError> {
    match r {
        Ok(report) => Ok(report@),
        Err(e) => Err(e),
    }
}

/// The expiry check of the entry `id` at `now`: `NotFound` without such an
/// entry, `Corrupt` when its deletion time cannot be understood, and
/// otherwise the instant of expiry with the time that remains or has passed.
pub open spec fn expiry_report(id: Seq<char>, store: Map<Seq<char>, MetaView>, now: int) -> Result<
    ReportView,
    TrashError,
> {
    if !store.contains_key(id) {
        Err(TrashError::NotFound)
    } else {
        match store[id].deleted_at {
            None => Err(TrashError::Corrupt),
            Some(at) => Ok(
                ReportView {
                    original_path: store[id].original_path,
                    delete_time: store[id].delete_time,
                    expire_time: expire_time(at as int, store[id].expire_days as int),
                    status: status_of(seconds_left(at as int, store[id].expire_days as int, now)),
                },
            ),
        }
    }
}

/// Checks the expiry of the entry `name` as it stands at `now`.
pub fn expire_check_at(name: &str, store: &Store, now: i64) -> (r: Result<ExpiryReport, TrashError>)
    ensures
        reported(r) == expiry_report(name@, store@, now as int),
{
    match store.get(name) {
        None => Err(TrashError::NotFound),
        Some(meta) => match meta.deleted_at {
            None => Err(TrashError::Corrupt),
            Some(at) => Ok(
                ExpiryReport {
                    original_path: meta.original_path.clone(),
                    delete_time: meta.delete_time.clone(),
                    expire_time: expires_at(at, meta.expire_days),
                    status: expiry_status(at, meta.expire_days, now),
                },
            ),
        },
    }
}

/// Checks the expiry of the entry `name` as it stands now.
pub fn handle_expire_check(name: &str, store: &Store) -> (r: Result<ExpiryReport, TrashError>)
    ensures
        exists|now: int| reported(r) == #[trigger] expiry_report(name@, store@, now),
{
    let now = Moment::now().unix;
    expire_check_at(name, store, now)
}

} // verus!
