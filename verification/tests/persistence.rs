use safe_rm::clock::{deletion_instant, settle, LocalTime, Moment};
use safe_rm::delete::handle_delete;
use safe_rm::error::TrashError;
use safe_rm::meta::FileMeta;
use safe_rm::paths::Resolved;
use safe_rm::persist::{load_metadata, save_metadata, Loaded};
use safe_rm::store::{Entry, Store};

const NOON_UTC: i64 = 1_705_320_000;

fn entry(id: &str, days: i64) -> Entry {
    Entry {
        id: id.to_string(),
        meta: FileMeta::new(
            format!("/home/u/{}", id),
            format!("/trash/{}", id),
            "2024-01-15 12:00:00".to_string(),
            days,
            false,
        ),
    }
}

fn ids(store: &Store) -> Vec<String> {
    (0..store.len()).map(|i| store.id_at(i).clone()).collect()
}

#[test]
fn missing_file_gives_an_empty_store_without_warning() {
    let (store, warning) = load_metadata(Loaded::Absent);
    assert!(store.is_empty());
    assert_eq!(warning, None);
}

#[test]
fn unreadable_or_unparseable_file_gives_an_empty_store_with_warning() {
    let (store, warning) = load_metadata(Loaded::Unreadable);
    assert!(store.is_empty());
    assert_eq!(warning, Some(TrashError::Corrupt));
    let (store, warning) = load_metadata(Loaded::Unparseable);
    assert!(store.is_empty());
    assert_eq!(warning, Some(TrashError::Corrupt));
}

#[test]
fn parsed_entries_fill_the_store() {
    let (store, warning) = load_metadata(Loaded::Parsed(vec![entry("a_1", 1), entry("b_2", 2)]));
    assert_eq!(warning, None);
    assert_eq!(ids(&store), vec!["a_1", "b_2"]);
    assert_eq!(store.get("b_2").unwrap().expire_days, 2);
    let (store, _) = load_metadata(Loaded::Parsed(Vec::new()));
    assert!(store.is_empty());
}

#[test]
fn a_later_entry_replaces_an_earlier_one_with_the_same_identifier() {
    let (store, _) =
        load_metadata(Loaded::Parsed(vec![entry("a_1", 1), entry("b_2", 2), entry("a_1", 9)]));
    assert_eq!(ids(&store), vec!["a_1", "b_2"]);
    assert_eq!(store.get("a_1").unwrap().expire_days, 9);
}

#[test]
fn what_is_saved_loads_back_unchanged() {
    let (store, _) = load_metadata(Loaded::Parsed(vec![entry("a_1", 1), entry("b_2", 2)]));
    let saved = save_metadata(&store);
    assert_eq!(saved.len(), 2);
    assert_eq!(saved[0].id, "a_1");
    assert_eq!(saved[1].meta.trash_path, "/trash/b_2");
    let (again, warning) = load_metadata(Loaded::Parsed(saved));
    assert_eq!(warning, None);
    assert_eq!(ids(&again), ids(&store));
    assert_eq!(again.get("a_1").unwrap().expire_days, 1);
    assert_eq!(again.get("a_1").unwrap().deleted_at, store.get("a_1").unwrap().deleted_at);
}

#[test]
fn stored_deletion_time_resolves_to_an_instant_near_its_reading() {
    let instant = deletion_instant("2024-01-15 12:00:00").expect("a valid reading in mid-January");
    // Local time lies within a day of the same reading taken as UTC.
    assert!((instant - NOON_UTC).abs() <= 86_400, "{}", instant);
    let later = deletion_instant("2024-01-16 12:00:00").unwrap();
    assert_eq!(later - instant, 86_400);
    let meta = entry("a_1", 1).meta;
    assert_eq!(meta.deleted_at, Some(instant));
    assert_eq!(meta.delete_time, "2024-01-15 12:00:00");
}

#[test]
fn text_that_is_no_reading_resolves_to_nothing() {
    for text in ["", "garbage", "2024-01-15", "2024-13-01 00:00:00", "2024-01-15 25:00:00", "12:00:00"] {
        assert_eq!(deletion_instant(text), None, "{:?}", text);
    }
    let meta = FileMeta::new("/a".to_string(), "/t/a".to_string(), "soon".to_string(), 7, true);
    assert_eq!(meta.deleted_at, None);
    assert!(meta.is_due(0));
    assert!(meta.is_dir);
}

#[test]
fn of_two_candidate_instants_the_later_is_taken() {
    assert_eq!(settle(LocalTime::Single(5)), Some(5));
    assert_eq!(settle(LocalTime::Ambiguous(5, 9)), Some(9));
    assert_eq!(settle(LocalTime::Ambiguous(9, 5)), Some(9));
    assert_eq!(settle(LocalTime::Missing), None);
}

#[test]
fn the_clock_reads_a_present_moment() {
    let moment = Moment::now();
    assert!(moment.unix > 1_600_000_000);
    assert_eq!(moment.text.len(), 19);
    let resolved = deletion_instant(&moment.text).expect("the clock's own text is a reading");
    // The text has whole seconds, and a repeated hour resolves to its later
    // instant.
    assert!((resolved - moment.unix).abs() <= 3_601, "{} vs {}", resolved, moment.unix);
}

#[test]
fn a_deletion_started_now_is_named_after_the_present_instant() {
    let before = Moment::now().unix;
    let found = Some(Resolved { path: "/home/u/notes.txt".to_string(), is_dir: false });
    let run = handle_delete(found, 7, false, "/trash").unwrap();
    let after = Moment::now().unix;
    let stamp: i64 = run.id.strip_prefix("notes.txt_").unwrap().parse().unwrap();
    assert!(before <= stamp && stamp <= after);
    assert_eq!(run.meta.deleted_at, Some(stamp));
    assert_eq!(run.meta.trash_path, format!("/trash/notes.txt_{}", stamp));
    assert_eq!(run.meta.expire_days, 7);
    assert!(handle_delete(None, 7, true, "/trash").is_err());
    let system = Some(Resolved { path: "/usr/bin/env".to_string(), is_dir: false });
    assert_eq!(handle_delete(system, 7, false, "/trash").err(), Some(TrashError::Protected));
}
