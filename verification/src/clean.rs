//! Cleanup: dropping expired entries, and emptying the trash altogether.
//!
//! Both operations drop entries from the store first and hand them back to
//! the caller, who then removes their trash copies as far as that is
//! possible. Whether a copy could be removed does not matter to the store: a
//! dropped entry stays dropped.

use vstd::prelude::*;
use crate::clock::Moment;
use crate::disk::{action_view, ActionView, FsAction, FsEvent};
use crate::meta::MetaView;
use crate::store::{
    as_map,
    distinct_ids,
    has_id,
    ids_of,
    index_of_id,
    lemma_entry_at,
    lemma_push,
    Entry,
    EntryView,
    Store,
};
use crate::text::chars_of;

verus! {

/// Whether a cleanup at `now` selects an entry: always when everything is to
/// go, otherwise when the entry is expired or its deletion time cannot be
/// understood.
pub open spec fn selected(meta: MetaView, now: int, clean_all: bool) -> bool {
    clean_all || meta.due(now)
}

/// The test "the entry under this identifier is selected".
pub open spec fn is_selected(store: Map<Seq<char>, MetaView>, now: int, clean_all: bool) -> spec_fn(
    Seq<char>,
) -> bool {
    |id: Seq<char>| selected(store[id], now, clean_all)
}

/// The test "the entry under this identifier is not selected".
pub open spec fn is_kept(store: Map<Seq<char>, MetaView>, now: int, clean_all: bool) -> spec_fn(
    Seq<char>,
) -> bool {
    |id: Seq<char>| !selected(store[id], now, clean_all)
}

/// The store after a cleanup: the entries that were not selected.
pub open spec fn kept_after(store: Map<Seq<char>, MetaView>, now: int, clean_all: bool) -> Map<
    Seq<char>,
    MetaView,
> {
    Map::new(
        |id: Seq<char>| store.contains_key(id) && !selected(store[id], now, clean_all),
        |id: Seq<char>| store[id],
    )
}

/// What a cleanup at `now` does to a store with content `before`, listed in
/// the order `before_ids`: the entries that are not selected stay, in their
/// order, and the selected ones are handed out as `removed`, in their order
/// and with their records.
pub open spec fn cleaned(
    before: Map<Seq<char>, MetaView>,
    before_ids: Seq<Seq<char>>,
    after: Map<Seq<char>, MetaView>,
    after_ids: Seq<Seq<char>>,
    removed: Seq<Entry>,
    now: int,
    clean_all: bool,
) -> bool {
    &&& after == kept_after(before, now, clean_all)
    &&& after_ids == before_ids.filter(is_kept(before, now, clean_all))
    &&& ids_of(removed) == before_ids.filter(is_selected(before, now, clean_all))
    &&& forall|k: int|
        0 <= k < removed.len() ==> before.contains_key((#[trigger] removed[k]).id@)
            && removed[k].meta@ == before[removed[k].id@]
}

/// Drops from `store` every entry that a cleanup at `now` selects and
/// returns the dropped entries, whose trash copies the caller is to remove.
pub fn clean_at(store: &mut Store, now: i64, clean_all: bool) -> (removed: Vec<Entry>)
    ensures
        cleaned(
            old(store)@,
            old(store).ids(),
            final(store)@,
            final(store).ids(),
            removed@,
            now as int,
            clean_all,
        ),
{
    broadcast use vstd::std_specs::vec::axiom_spec_into_iter;

    let all = store.drain();
    let ghost before = all@;
    let ghost content = as_map(before);
    let ghost keep = is_kept(content, now as int, clean_all);
    let ghost select = is_selected(content, now as int, clean_all);
    let mut kept: Vec<Entry> = Vec::new();
    let mut removed: Vec<Entry> = Vec::new();
    proof {
        assert(before.take(0) =~= Seq::<Entry>::empty());
        assert(ids_of(kept@) =~= ids_of(before.take(0)).filter(keep));
        assert(ids_of(removed@) =~= ids_of(before.take(0)).filter(select));
    }
    for entry in it: all.into_iter()
        invariant
            it.seq() == before,
            distinct_ids(before),
            content == as_map(before),
            keep == is_kept(content, now as int, clean_all),
            select == is_selected(content, now as int, clean_all),
            distinct_ids(kept@),
            ids_of(kept@) == ids_of(before.take(it.index())).filter(keep),
            ids_of(removed@) == ids_of(before.take(it.index())).filter(select),
            forall|id: Seq<char>| #[trigger]
                has_id(kept@, id) ==> has_id(before.take(it.index()), id) && keep(id),
            forall|k: int|
                0 <= k < it.index() && keep(before[k].id@) ==> has_id(
                    kept@,
                    (#[trigger] before[k]).id@,
                ),
            forall|k: int|
                0 <= k < kept@.len() ==> content.contains_key((#[trigger] kept@[k]).id@)
                    && kept@[k].meta@ == content[kept@[k].id@],
            forall|k: int|
                0 <= k < removed@.len() ==> content.contains_key((#[trigger] removed@[k]).id@)
                    && removed@[k].meta@ == content[removed@[k].id@],
    {
        let ghost i = it.index();
        let ghost seen = before.take(i);
        proof {
            lemma_entry_at(before, i);
            assert(before[i] == entry);
            assert(before.take(i + 1) =~= seen.push(entry));
            assert(ids_of(before.take(i + 1)) =~= ids_of(seen).push(entry.id@));
            ids_of(seen).lemma_filter_push(entry.id@, keep);
            ids_of(seen).lemma_filter_push(entry.id@, select);
            assert(!has_id(kept@, entry.id@)) by {
                if has_id(kept@, entry.id@) {
                    let j = index_of_id(seen, entry.id@);
                    assert(seen[j] == before[j]);
                    assert(before[j].id@ != before[i].id@);
                }
            }
        }
        let ghost kept_before = kept@;
        let ghost removed_before = removed@;
        if clean_all || entry.meta.is_due(now) {
            removed.push(entry);
            proof {
                assert(ids_of(removed@) =~= ids_of(removed_before).push(entry.id@));
                assert forall|id: Seq<char>| has_id(kept@, id) implies has_id(
                    before.take(i + 1),
                    id,
                ) && keep(id) by {
                    assert(has_id(kept_before, id));
                    let j = index_of_id(seen, id);
                    assert(seen[j].id@ == id);
                    assert(before.take(i + 1)[j] == seen[j]);
                }
            }
        } else {
            proof {
                lemma_push(kept@, entry);
            }
            kept.push(entry);
            proof {
                assert forall|id: Seq<char>| has_id(kept@, id) implies has_id(
                    before.take(i + 1),
                    id,
                ) && keep(id) by {
                    if id == entry.id@ {
                        assert(before.take(i + 1)[i].id@ == id);
                        assert(content[id] == entry.meta@);
                    } else {
                        let k = index_of_id(kept@, id);
                        assert(kept@[k].id@ == id);
                        assert(kept_before[k].id@ == id);
                        assert(has_id(kept_before, id));
                        let j = index_of_id(seen, id);
                        assert(seen[j].id@ == id);
                        assert(before.take(i + 1)[j] == seen[j]);
                    }
                }
                assert forall|k: int| 0 <= k < i + 1 && keep(before[k].id@) implies has_id(
                    kept@,
                    (#[trigger] before[k]).id@,
                ) by {
                    if k < i {
                        let j = index_of_id(kept_before, before[k].id@);
                        assert(kept@[j].id@ == before[k].id@);
                    } else {
                        assert(kept@[kept_before.len() as int].id@ == before[k].id@);
                    }
                }
            }
        }
    }
    proof {
        assert(before.take(before.len() as int) =~= before);
        assert forall|id: Seq<char>| has_id(kept@, id) <==> content.contains_key(id) && !selected(
            content[id],
            now as int,
            clean_all,
        ) by {
            if has_id(kept@, id) {
                let j = index_of_id(before, id);
            }
            if content.contains_key(id) && !selected(content[id], now as int, clean_all) {
                let j = index_of_id(before, id);
                assert(keep(before[j].id@));
            }
        }
        assert forall|id: Seq<char>| has_id(kept@, id) implies #[trigger] as_map(kept@)[id]
            == content[id] by {
            let k = index_of_id(kept@, id);
            lemma_entry_at(kept@, k);
        }
        assert(as_map(kept@) =~= kept_after(content, now as int, clean_all));
    }
    *store = Store::from_distinct(kept);
    removed
}

/// Runs a cleanup now: reads the clock and drops what is selected at that
/// instant.
pub fn clean_expired_files(store: &mut Store, clean_all: bool) -> (removed: Vec<Entry>)
    ensures
        exists|now: int| #[trigger]
            cleaned(
                old(store)@,
                old(store).ids(),
                final(store)@,
                final(store).ids(),
                removed@,
                now,
                clean_all,
            ),
{
    let now = Moment::now().unix;
    clean_at(store, now, clean_all)
}

/// What emptying the trash does to a store: with the confirmation every
/// entry is dropped and handed out, in listing order and with its record;
/// without it nothing happens.
pub open spec fn emptied(
    before: Map<Seq<char>, MetaView>,
    before_ids: Seq<Seq<char>>,
    after: Map<Seq<char>, MetaView>,
    after_ids: Seq<Seq<char>>,
    removed: Seq<Entry>,
    confirmed: bool,
) -> bool {
    if confirmed {
        &&& after == Map::<Seq<char>, MetaView>::empty()
        &&& after_ids == Seq::<Seq<char>>::empty()
        &&& ids_of(removed) == before_ids
        &&& forall|k: int|
            0 <= k < removed.len() ==> before.contains_key((#[trigger] removed[k]).id@)
                && removed[k].meta@ == before[removed[k].id@]
    } else {
        &&& after == before
        &&& after_ids == before_ids
        &&& removed == Seq::<Entry>::empty()
    }
}

/// Empties the trash if the user has confirmed: drops every entry from
/// `store` and returns them all, so that the caller can remove their trash
/// copies. Without the confirmation nothing is touched.
pub fn handle_empty_trash(confirmed: bool, store: &mut Store) -> (removed: Vec<Entry>)
    ensures
        emptied(
            old(store)@,
            old(store).ids(),
            final(store)@,
            final(store).ids(),
            removed@,
            confirmed,
        ),
{
    if confirmed {
        let removed = store.drain();
        proof {
            assert forall|k: int| 0 <= k < removed@.len() implies old(store)@.contains_key(
                (#[trigger] removed@[k]).id@,
            ) && removed@[k].meta@ == old(store)@[removed@[k].id@] by {
                lemma_entry_at(removed@, k);
            }
        }
        removed
    } else {
        Vec::new()
    }
}

/// The probe that comes before the removal of a dropped entry's trash copy.
pub fn discard_probe(entry: &Entry) -> (probe: FsAction)
    ensures
        probe@ == (ActionView::Probe { path: entry@.meta.trash_path }),
{
    FsAction::Probe { path: entry.meta.trash_path.clone() }
}

/// The removal that follows the probe of a dropped entry's trash copy: none
/// unless the probe found something, and then by the kind that the entry
/// records.
pub open spec fn discard_step(entry: EntryView, probe: FsEvent) -> Option<ActionView> {
    match probe {
        FsEvent::Found { is_dir } => Some(
            ActionView::Remove { path: entry.meta.trash_path, tree: entry.meta.is_dir },
        ),
        _ => None,
    }
}

/// Names the removal to attempt for a dropped entry once its trash copy has
/// been probed. What the removal reports is of no consequence.
pub fn discard_action(entry: &Entry, probe: FsEvent) -> (action: Option<FsAction>)
    ensures
        action_view(action) == discard_step(entry@, probe),
{
    match probe {
        FsEvent::Found { is_dir } => Some(
            FsAction::Remove { path: entry.meta.trash_path.clone(), tree: entry.meta.is_dir },
        ),
        _ => None,
    }
}

/// The characters that count as white space around an answer: the Unicode
/// white-space characters.
pub open spec fn is_space(c: char) -> bool {
    ||| 0x09 <= c as u32 <= 0x0D
    ||| c as u32 == 0x20
    ||| c as u32 == 0x85
    ||| c as u32 == 0xA0
    ||| c as u32 == 0x1680
    ||| 0x2000 <= c as u32 <= 0x200A
    ||| c as u32 == 0x2028
    ||| c as u32 == 0x2029
    ||| c as u32 == 0x202F
    ||| c as u32 == 0x205F
    ||| c as u32 == 0x3000
}

/// An answer confirms when it is a single `y` or `Y`, with nothing but white
/// space around it.
pub open spec fn is_yes(answer: Seq<char>) -> bool {
    exists|at: int|
        0 <= at < answer.len() && (#[trigger] answer[at] == 'y' || answer[at] == 'Y')
            && forall|k: int| 0 <= k < answer.len() && k != at ==> is_space(#[trigger] answer[k])
}

/// Decides whether the user's answer to "empty the trash?" confirms.
pub fn confirms(answer: &str) -> (yes: bool)
    ensures
        yes == is_yes(answer@),
{
    let text = chars_of(answer);
    let mut letter: Option<usize> = None;
    let mut k: usize = 0;
    while k < text.len()
        invariant
            k <= text.len(),
            text@ == answer@,
            match letter {
                Some(at) => at < k && (text@[at as int] == 'y' || text@[at as int] == 'Y')
                    && forall|j: int| 0 <= j < k && j != at ==> is_space(#[trigger] text@[j]),
                None => forall|j: int| 0 <= j < k ==> is_space(#[trigger] text@[j]),
            },
        decreases text.len() - k,
    {
        let c = text[k];
        let code = c as u32;
        let space = (0x09 <= code && code <= 0x0D) || code == 0x20 || code == 0x85 || code == 0xA0
            || code == 0x1680 || (0x2000 <= code && code <= 0x200A) || code == 0x2028 || code
            == 0x2029 || code == 0x202F || code == 0x205F || code == 0x3000;
        if !space {
            if letter.is_none() && (c == 'y' || c == 'Y') {
                letter = Some(k);
            } else {
                proof {
                    assert(!is_space(answer@[k as int]));
                    if is_yes(answer@) {
                        let at = choose|at: int|
                            0 <= at < answer@.len() && (#[trigger] answer@[at] == 'y' || answer@[at]
                                == 'Y') && forall|j: int|
                                0 <= j < answer@.len() && j != at ==> is_space(
                                    #[trigger] answer@[j],
                                );
                        if letter is Some {
                            let first = letter->0 as int;
                            assert(!is_space(answer@[first]));
                            assert(at == first);
                        }
                        assert(at == k as int);
                    }
                    assert(!is_yes(answer@));
                }
                return false;
            }
        }
        k += 1;
    }
    proof {
        if letter is None && is_yes(answer@) {
            let at = choose|at: int|
                0 <= at < answer@.len() && (#[trigger] answer@[at] == 'y' || answer@[at] == 'Y')
                    && forall|j: int|
                    0 <= j < answer@.len() && j != at ==> is_space(#[trigger] answer@[j]);
            assert(is_space(answer@[at]));
        }
    }
    letter.is_some()
}

} // verus!
