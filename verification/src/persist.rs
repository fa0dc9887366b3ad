//! Loading and saving the store.
//!
//! Reading and writing the metadata file, and its JSON form, are the
//! caller's business. This module decides what store results from what the
//! caller found, and hands out the entries that are to be written.

use vstd::prelude::*;
use crate::error::TrashError;
use crate::meta::MetaView;
use crate::store::{
    as_map,
    distinct_ids,
    has_id,
    ids_of,
    index_of_id,
    lemma_entry_at,
    lists_keys,
    Entry,
    Store,
};

verus! {

/// What the caller found where the metadata file should be.
#[derive(Debug)]
pub enum Loaded {
    /// There is no metadata file.
    Absent,
    /// The file exists but could not be read.
    Unreadable,
    /// The file was read but is not a valid metadata document.
    Unparseable,
    /// The entries of the file, in the order in which the caller read them.
    Parsed(Vec<Entry>),
}

/// The mapping that a list of entries stands for when a later entry
/// replaces an earlier one with the same identifier.
pub open spec fn collected(entries: Seq<Entry>) -> Map<Seq<char>, MetaView>
    decreases entries.len(),
{
    if entries.len() == 0 {
        Map::empty()
    } else {
        collected(entries.drop_last()).insert(entries.last().id@, entries.last().meta@)
    }
}

/// The identifiers of a list of entries in the order of their first
/// occurrence.
pub open spec fn first_seen(entries: Seq<Entry>) -> Seq<Seq<char>>
    decreases entries.len(),
{
    if entries.len() == 0 {
        Seq::empty()
    } else if collected(entries.drop_last()).contains_key(entries.last().id@) {
        first_seen(entries.drop_last())
    } else {
        first_seen(entries.drop_last()).push(entries.last().id@)
    }
}

/// The entries that a finding yields: those of a parsed file, none
/// otherwise.
pub open spec fn found_entries(found: Loaded) -> Seq<Entry> {
    match found {
        Loaded::Parsed(entries) => entries@,
        _ => Seq::empty(),
    }
}

/// The warning that a finding calls for: a file that exists but cannot be
/// read or understood is corrupt. A missing file is no fault.
pub open spec fn load_warning(found: Loaded) -> Option<TrashError> {
    match found {
        Loaded::Unreadable => Some(TrashError::Corrupt),
        Loaded::Unparseable => Some(TrashError::Corrupt),
        _ => None,
    }
}

/// Builds the store from what was found on disk. A missing, unreadable or
/// unparseable file gives an empty store, the latter two with a warning;
/// loading never fails.
pub fn load_metadata(found: Loaded) -> (r: (Store, Option<TrashError>))
    ensures
        r.0@ == collected(found_entries(found)),
        r.0.ids() == first_seen(found_entries(found)),
        r.1 == load_warning(found),
{
    broadcast use vstd::std_specs::vec::axiom_spec_into_iter;

    let mut store = Store::new();
    match found {
        Loaded::Absent => (store, None),
        Loaded::Unreadable => (store, Some(TrashError::Corrupt)),
        Loaded::Unparseable => (store, Some(TrashError::Corrupt)),
        Loaded::Parsed(entries) => {
            let ghost all = entries@;
            proof {
                assert(all.take(0) =~= Seq::<Entry>::empty());
            }
            for entry in it: entries.into_iter()
                invariant
                    it.seq() == all,
                    store@ == collected(all.take(it.index())),
                    store.ids() == first_seen(all.take(it.index())),
            {
                proof {
                    assert(all.take(it.index() + 1).drop_last() =~= all.take(it.index()));
                }
                store.insert(entry.id, entry.meta);
            }
            proof {
                assert(all.take(all.len() as int) =~= all);
            }
            (store, None)
        },
    }
}

/// The entries of the store in listing order, as they are to be written.
pub fn save_metadata(store: &Store) -> (entries: Vec<Entry>)
    ensures
        distinct_ids(entries@),
        ids_of(entries@) == store.ids(),
        as_map(entries@) == store@,
{
    let n = store.len();
    let mut entries: Vec<Entry> = Vec::new();
    let mut i: usize = 0;
    while i < n
        invariant
            i <= n,
            n == store.ids().len(),
            entries@.len() == i,
            lists_keys(store.ids(), store@),
            forall|k: int|
                0 <= k < i ==> (#[trigger] entries@[k]).id@ == store.ids()[k] && entries@[k].meta@
                    == store@[store.ids()[k]],
        decreases n - i,
    {
        let id = store.id_at(i);
        let meta = store.meta_at(i);
        entries.push(Entry { id: id.clone(), meta: meta.clone() });
        i += 1;
    }
    proof {
        let ids = store.ids();
        assert(ids_of(entries@) =~= ids);
        assert forall|a: int, b: int| 0 <= a < b < entries@.len() implies (#[trigger] entries@[a]).id@
            != (#[trigger] entries@[b]).id@ by {
            assert(ids[a] != ids[b]);
        }
        assert forall|id: Seq<char>| has_id(entries@, id) <==> store@.contains_key(id) by {
            if has_id(entries@, id) {
                let k = index_of_id(entries@, id);
                assert(ids[k] == id);
                assert(ids.contains(id));
            }
            if store@.contains_key(id) {
                assert(ids.contains(id));
                let k = choose|k: int| 0 <= k < ids.len() && ids[k] == id;
                assert(entries@[k].id@ == id);
            }
        }
        assert forall|id: Seq<char>| has_id(entries@, id) implies #[trigger] as_map(entries@)[id]
            == store@[id] by {
            let k = index_of_id(entries@, id);
            lemma_entry_at(entries@, k);
        }
        assert(as_map(entries@) =~= store@);
    }
    entries
}

} // verus!
