//! The metadata store: the trash entries, each under its identifier.
//!
//! The store is a mapping from identifier to record with unique keys. It also
//! keeps the order in which identifiers were first inserted, which is the
//! order in which listings show them.

use vstd::prelude::*;
use crate::meta::{FileMeta, MetaView};

verus! {

/// One entry of the store: an identifier and the record kept under it.
#[derive(Debug)]
pub struct Entry {
    pub id: String,
    pub meta: FileMeta,
}

/// The mathematical content of an `Entry`.
pub struct EntryView {
    pub id: Seq<char>,
    pub meta: MetaView,
}

impl View for Entry {
    type V = EntryView;

    open spec fn view(&self) -> EntryView {
        EntryView { id: self.id@, meta: self.meta@ }
    }
}

impl Clone for Entry {
    fn clone(&self) -> (copy: Entry)
        ensures
            copy@ == self@,
    {
        Entry { id: self.id.clone(), meta: self.meta.clone() }
    }
}

/// No two entries share an identifier.
pub open spec fn distinct_ids(entries: Seq<Entry>) -> bool {
    forall|i: int, j: int|
        0 <= i < j < entries.len() ==> (#[trigger] entries[i]).id@ != (#[trigger] entries[j]).id@
}

/// Some entry has the identifier `id`.
pub open spec fn has_id(entries: Seq<Entry>, id: Seq<char>) -> bool {
    exists|i: int| 0 <= i < entries.len() && (#[trigger] entries[i]).id@ == id
}

/// A position at which `id` occurs, if it occurs at all.
pub open spec fn index_of_id(entries: Seq<Entry>, id: Seq<char>) -> int {
    choose|i: int| 0 <= i < entries.len() && (#[trigger] entries[i]).id@ == id
}

/// The mapping that a list of entries with distinct identifiers stands for.
pub open spec fn as_map(entries: Seq<Entry>) -> Map<Seq<char>, MetaView> {
    Map::new(
        |id: Seq<char>| has_id(entries, id),
        |id: Seq<char>| entries[index_of_id(entries, id)].meta@,
    )
}

/// The identifiers of a list of entries, in order.
pub open spec fn ids_of(entries: Seq<Entry>) -> Seq<Seq<char>> {
    Seq::new(entries.len(), |i: int| entries[i].id@)
}

/// `ids` lists the keys of `map`, each exactly once.
pub open spec fn lists_keys(ids: Seq<Seq<char>>, map: Map<Seq<char>, MetaView>) -> bool {
    &&& ids.no_duplicates()
    &&& forall|id: Seq<char>| map.contains_key(id) <==> ids.contains(id)
}

/// `ids` without `id`; the order of the others is kept.
pub open spec fn without(ids: Seq<Seq<char>>, id: Seq<char>) -> Seq<Seq<char>> {
    if ids.contains(id) {
        ids.remove(ids.index_of(id))
    } else {
        ids
    }
}

/// In a list with distinct identifiers, the mapping holds each entry's record
/// under its identifier.
pub proof fn lemma_entry_at(entries: Seq<Entry>, i: int)
    requires
        distinct_ids(entries),
        0 <= i < entries.len(),
    ensures
        has_id(entries, entries[i].id@),
        index_of_id(entries, entries[i].id@) == i,
        as_map(entries).contains_key(entries[i].id@),
        as_map(entries)[entries[i].id@] == entries[i].meta@,
{
    let found = index_of_id(entries, entries[i].id@);
    assert(entries[found].id@ == entries[i].id@);
    if found < i {
        assert(entries[found].id@ != entries[i].id@);
    }
    if i < found {
        assert(entries[i].id@ != entries[found].id@);
    }
}

/// The identifiers of a list with distinct identifiers list the keys of its
/// mapping.
pub proof fn lemma_lists_keys(entries: Seq<Entry>)
    requires
        distinct_ids(entries),
    ensures
        lists_keys(ids_of(entries), as_map(entries)),
        ids_of(entries).len() == entries.len(),
{
    let ids = ids_of(entries);
    assert forall|i: int, j: int| 0 <= i < ids.len() && 0 <= j < ids.len() && i != j implies ids[i]
        != ids[j] by {
        if i < j {
            assert(entries[i].id@ != entries[j].id@);
        } else {
            assert(entries[j].id@ != entries[i].id@);
        }
    }
    assert forall|id: Seq<char>| as_map(entries).contains_key(id) <==> ids.contains(id) by {
        if as_map(entries).contains_key(id) {
            let i = index_of_id(entries, id);
            assert(ids[i] == id);
        }
        if ids.contains(id) {
            let i = choose|i: int| 0 <= i < ids.len() && ids[i] == id;
            assert(entries[i].id@ == id);
        }
    }
}

/// Appending an entry with a fresh identifier inserts it into the mapping.
pub proof fn lemma_push(entries: Seq<Entry>, entry: Entry)
    requires
        distinct_ids(entries),
        !has_id(entries, entry.id@),
    ensures
        distinct_ids(entries.push(entry)),
        as_map(entries.push(entry)) == as_map(entries).insert(entry.id@, entry.meta@),
        ids_of(entries.push(entry)) == ids_of(entries).push(entry.id@),
{
    let longer = entries.push(entry);
    assert forall|i: int, j: int| 0 <= i < j < longer.len() implies (#[trigger] longer[i]).id@ != (
    #[trigger] longer[j]).id@ by {
        if j < entries.len() {
            assert(entries[i].id@ != entries[j].id@);
        } else {
            assert(entries[i].id@ != entry.id@);
        }
    }
    assert forall|id: Seq<char>| has_id(longer, id) <==> (has_id(entries, id) || id
        == entry.id@) by {
        if has_id(entries, id) {
            let i = index_of_id(entries, id);
            assert(longer[i].id@ == id);
        }
        if id == entry.id@ {
            assert(longer[entries.len() as int].id@ == id);
        }
        if has_id(longer, id) {
            let i = index_of_id(longer, id);
            if i < entries.len() {
                assert(entries[i].id@ == id);
            }
        }
    }
    assert forall|id: Seq<char>| has_id(longer, id) implies #[trigger] as_map(longer)[id]
        == as_map(entries).insert(entry.id@, entry.meta@)[id] by {
        let i = index_of_id(longer, id);
        lemma_entry_at(longer, i);
        if i < entries.len() {
            lemma_entry_at(entries, i);
        }
    }
    assert(as_map(longer) =~= as_map(entries).insert(entry.id@, entry.meta@));
    assert(ids_of(longer) =~= ids_of(entries).push(entry.id@));
}

/// Replacing an entry by one with the same identifier overwrites its record.
pub proof fn lemma_replace(entries: Seq<Entry>, at: int, entry: Entry)
    requires
        distinct_ids(entries),
        0 <= at < entries.len(),
        entries[at].id@ == entry.id@,
    ensures
        distinct_ids(entries.update(at, entry)),
        as_map(entries.update(at, entry)) == as_map(entries).insert(entry.id@, entry.meta@),
        ids_of(entries.update(at, entry)) == ids_of(entries),
{
    let changed = entries.update(at, entry);
    assert forall|i: int, j: int| 0 <= i < j < changed.len() implies (#[trigger] changed[i]).id@
        != (#[trigger] changed[j]).id@ by {
        assert(entries[i].id@ != entries[j].id@);
    }
    assert forall|id: Seq<char>| has_id(changed, id) <==> has_id(entries, id) by {
        if has_id(entries, id) {
            let i = index_of_id(entries, id);
            assert(changed[i].id@ == id);
        }
        if has_id(changed, id) {
            let i = index_of_id(changed, id);
            assert(entries[i].id@ == id);
        }
    }
    lemma_entry_at(entries, at);
    assert forall|id: Seq<char>| has_id(changed, id) implies #[trigger] as_map(changed)[id]
        == as_map(entries).insert(entry.id@, entry.meta@)[id] by {
        let i = index_of_id(changed, id);
        lemma_entry_at(changed, i);
        lemma_entry_at(entries, i);
    }
    assert(as_map(changed) =~= as_map(entries).insert(entry.id@, entry.meta@));
    assert(ids_of(changed) =~= ids_of(entries));
}

/// Taking an entry out of the list removes its key from the mapping.
pub proof fn lemma_remove(entries: Seq<Entry>, at: int)
    requires
        distinct_ids(entries),
        0 <= at < entries.len(),
    ensures
        distinct_ids(entries.remove(at)),
        as_map(entries.remove(at)) == as_map(entries).remove(entries[at].id@),
        ids_of(entries.remove(at)) == without(ids_of(entries), entries[at].id@),
{
    let gone = entries[at].id@;
    let rest = entries.remove(at);
    assert forall|i: int| 0 <= i < rest.len() implies #[trigger] rest[i] == entries[if i < at {
        i
    } else {
        i + 1
    }] by {}
    assert forall|i: int, j: int| 0 <= i < j < rest.len() implies (#[trigger] rest[i]).id@ != (
    #[trigger] rest[j]).id@ by {
        let a = if i < at { i } else { i + 1 };
        let b = if j < at { j } else { j + 1 };
        assert(entries[a].id@ != entries[b].id@);
    }
    assert forall|id: Seq<char>| has_id(rest, id) <==> (has_id(entries, id) && id != gone) by {
        if has_id(entries, id) && id != gone {
            let i = index_of_id(entries, id);
            let k = if i < at { i } else { i - 1 };
            assert(rest[k].id@ == id);
        }
        if has_id(rest, id) {
            let k = index_of_id(rest, id);
            let i = if k < at { k } else { k + 1 };
            assert(entries[i].id@ == id);
            if i < at {
                assert(entries[i].id@ != entries[at].id@);
            } else {
                assert(entries[at].id@ != entries[i].id@);
            }
        }
    }
    assert forall|id: Seq<char>| has_id(rest, id) implies #[trigger] as_map(rest)[id] == as_map(
        entries,
    ).remove(gone)[id] by {
        let k = index_of_id(rest, id);
        let i = if k < at { k } else { k + 1 };
        lemma_entry_at(rest, k);
        lemma_entry_at(entries, i);
    }
    assert(as_map(rest) =~= as_map(entries).remove(gone));
    let ids = ids_of(entries);
    lemma_lists_keys(entries);
    assert(ids[at] == gone);
    assert(ids.contains(gone));
    assert(ids.index_of(gone) == at) by {
        let found = ids.index_of(gone);
        assert(ids[found] == gone);
    }
    assert(ids_of(rest) =~= ids.remove(at));
}

/// Finds the position of `id` among `entries`.
fn position(entries: &Vec<Entry>, id: &String) -> (r: Option<usize>)
    ensures
        match r {
            Some(at) => at < entries.len() && entries[at as int].id@ == id@,
            None => !has_id(entries@, id@),
        },
{
    let mut at: usize = 0;
    while at < entries.len()
        invariant
            at <= entries.len(),
            forall|k: int| 0 <= k < at ==> (#[trigger] entries[k]).id@ != id@,
        decreases entries.len() - at,
    {
        if entries[at].id == *id {
            return Some(at);
        }
        at += 1;
    }
    None
}

/// The metadata store.
pub struct Store {
    entries: Vec<Entry>,
}

impl View for Store {
    type V = Map<Seq<char>, MetaView>;

    closed spec fn view(&self) -> Map<Seq<char>, MetaView> {
        as_map(self.entries@)
    }
}

impl Store {
    #[verifier::type_invariant]
    spec fn well_formed(&self) -> bool {
        distinct_ids(self.entries@)
    }

    /// The identifiers in the store, in the order of first insertion.
    pub closed spec fn ids(&self) -> Seq<Seq<char>> {
        ids_of(self.entries@)
    }

    /// An empty store.
    pub fn new() -> (store: Store)
        ensures
            store@ == Map::<Seq<char>, MetaView>::empty(),
            store.ids() == Seq::<Seq<char>>::empty(),
    {
        let store = Store { entries: Vec::new() };
        assert(store@ =~= Map::<Seq<char>, MetaView>::empty());
        assert(store.ids() =~= Seq::<Seq<char>>::empty());
        store
    }

    /// The number of entries. Every identifier is listed once in `ids`, so
    /// this is also the number of keys.
    pub fn len(&self) -> (n: usize)
        ensures
            n == self.ids().len(),
            lists_keys(self.ids(), self@),
    {
        proof {
            use_type_invariant(self);
            lemma_lists_keys(self.entries@);
        }
        self.entries.len()
    }

    /// Whether the store holds no entry.
    pub fn is_empty(&self) -> (b: bool)
        ensures
            b == (self.ids().len() == 0),
            b == (self@ == Map::<Seq<char>, MetaView>::empty()),
    {
        proof {
            use_type_invariant(self);
            lemma_lists_keys(self.entries@);
            if self.entries@.len() == 0 {
                assert(self@ =~= Map::<Seq<char>, MetaView>::empty());
            } else {
                lemma_entry_at(self.entries@, 0);
            }
        }
        self.entries.len() == 0
    }

    /// The identifier at position `at` of the listing order.
    pub fn id_at(&self, at: usize) -> (id: &String)
        requires
            at < self.ids().len(),
        ensures
            id@ == self.ids()[at as int],
    {
        &self.entries[at].id
    }

    /// The record of the entry at position `at` of the listing order.
    pub fn meta_at(&self, at: usize) -> (meta: &FileMeta)
        requires
            at < self.ids().len(),
        ensures
            self@.contains_key(self.ids()[at as int]),
            meta@ == self@[self.ids()[at as int]],
    {
        proof {
            use_type_invariant(self);
            lemma_entry_at(self.entries@, at as int);
        }
        &self.entries[at].meta
    }

    /// Whether an entry is stored under `id`.
    pub fn contains(&self, id: &str) -> (b: bool)
        ensures
            b == self@.contains_key(id@),
    {
        let key = String::from_str(id);
        position(&self.entries, &key).is_some()
    }

    /// The record stored under `id`, if any.
    pub fn get(&self, id: &str) -> (r: Option<&FileMeta>)
        ensures
            match r {
                Some(meta) => self@.contains_key(id@) && meta@ == self@[id@],
                None => !self@.contains_key(id@),
            },
    {
        let key = String::from_str(id);
        match position(&self.entries, &key) {
            Some(at) => {
                proof {
                    use_type_invariant(self);
                    lemma_entry_at(self.entries@, at as int);
                }
                Some(&self.entries[at].meta)
            },
            None => None,
        }
    }

    /// Stores `meta` under `id`. A record already stored under `id` is
    /// replaced and handed back; its place in the listing order is kept.
    pub fn insert(&mut self, id: String, meta: FileMeta) -> (previous: Option<FileMeta>)
        ensures
            final(self)@ == old(self)@.insert(id@, meta@),
            final(self).ids() == if old(self)@.contains_key(id@) {
                old(self).ids()
            } else {
                old(self).ids().push(id@)
            },
            match previous {
                Some(before) => old(self)@.contains_key(id@) && before@ == old(self)@[id@],
                None => !old(self)@.contains_key(id@),
            },
    {
        proof {
            use_type_invariant(&*self);
        }
        let mut staged: Vec<Entry> = Vec::new();
        core::mem::swap(&mut self.entries, &mut staged);
        let entry = Entry { id, meta };
        let previous = match position(&staged, &entry.id) {
            Some(at) => {
                proof {
                    lemma_entry_at(staged@, at as int);
                    lemma_replace(staged@, at as int, entry);
                }
                let before = staged.remove(at);
                staged.insert(at, entry);
                assert(staged@ =~= old(self).entries@.update(at as int, entry));
                Some(before.meta)
            },
            None => {
                proof {
                    lemma_push(staged@, entry);
                }
                staged.push(entry);
                None
            },
        };
        self.entries = staged;
        previous
    }

    /// Drops the entry stored under `id` and hands its record back. The
    /// order of the other entries is kept.
    pub fn remove(&mut self, id: &str) -> (removed: Option<FileMeta>)
        ensures
            final(self)@ == old(self)@.remove(id@),
            final(self).ids() == without(old(self).ids(), id@),
            match removed {
                Some(meta) => old(self)@.contains_key(id@) && meta@ == old(self)@[id@],
                None => !old(self)@.contains_key(id@),
            },
    {
        proof {
            use_type_invariant(&*self);
            lemma_lists_keys(self.entries@);
        }
        let key = String::from_str(id);
        let mut staged: Vec<Entry> = Vec::new();
        core::mem::swap(&mut self.entries, &mut staged);
        let removed = match position(&staged, &key) {
            Some(at) => {
                proof {
                    lemma_entry_at(staged@, at as int);
                    lemma_remove(staged@, at as int);
                }
                let entry = staged.remove(at);
                Some(entry.meta)
            },
            None => {
                assert(old(self)@.remove(id@) =~= old(self)@);
                None
            },
        };
        self.entries = staged;
        removed
    }

    /// A store that holds exactly `entries`, whose identifiers must be
    /// distinct.
    pub(crate) fn from_distinct(entries: Vec<Entry>) -> (store: Store)
        requires
            distinct_ids(entries@),
        ensures
            store@ == as_map(entries@),
            store.ids() == ids_of(entries@),
    {
        Store { entries }
    }

    /// Empties the store and hands back everything it held, in listing
    /// order.
    pub fn drain(&mut self) -> (all: Vec<Entry>)
        ensures
            final(self)@ == Map::<Seq<char>, MetaView>::empty(),
            final(self).ids() == Seq::<Seq<char>>::empty(),
            distinct_ids(all@),
            as_map(all@) == old(self)@,
            ids_of(all@) == old(self).ids(),
    {
        proof {
            use_type_invariant(&*self);
        }
        let mut all: Vec<Entry> = Vec::new();
        core::mem::swap(&mut self.entries, &mut all);
        proof {
            assert(self@ =~= Map::<Seq<char>, MetaView>::empty());
            assert(self.ids() =~= Seq::<Seq<char>>::empty());
        }
        all
    }
}

} // verus!
