use safe_rm::clean::{
    clean_at, clean_expired_files, confirms, discard_action, discard_probe, handle_empty_trash,
};
use safe_rm::disk::{FsAction, FsEvent};
use safe_rm::meta::FileMeta;
use safe_rm::store::{Entry, Store};

const T0: i64 = 1_705_312_800;
const DAY: i64 = 86_400;

fn meta(name: &str, deleted_at: Option<i64>, days: i64, is_dir: bool) -> FileMeta {
    FileMeta {
        original_path: format!("/home/u/{}", name),
        trash_path: format!("/trash/{}", name),
        delete_time: "2024-01-15 10:00:00".to_string(),
        deleted_at,
        expire_days: days,
        is_dir,
    }
}

fn sample() -> Store {
    let mut store = Store::new();
    store.insert("old_1".to_string(), meta("old_1", Some(T0), 1, false));
    store.insert("fresh_2".to_string(), meta("fresh_2", Some(T0), 7, true));
    store.insert("broken_3".to_string(), meta("broken_3", None, 7, false));
    store.insert("edge_4".to_string(), meta("edge_4", Some(T0), 2, false));
    store
}

fn ids(store: &Store) -> Vec<String> {
    (0..store.len()).map(|i| store.id_at(i).clone()).collect()
}

fn names(entries: &[Entry]) -> Vec<String> {
    entries.iter().map(|e| e.id.clone()).collect()
}

#[test]
fn clean_drops_expired_and_unreadable_entries() {
    let mut store = sample();
    let dropped = clean_at(&mut store, T0 + 2 * DAY, false);
    assert_eq!(names(&dropped), vec!["old_1", "broken_3"]);
    assert_eq!(ids(&store), vec!["fresh_2", "edge_4"]);
    assert_eq!(dropped[0].meta.trash_path, "/trash/old_1");
}

#[test]
fn clean_keeps_an_entry_at_the_instant_of_expiry() {
    let mut store = sample();
    let dropped = clean_at(&mut store, T0 + 2 * DAY, false);
    assert!(!names(&dropped).contains(&"edge_4".to_string()));
    let dropped = clean_at(&mut store, T0 + 2 * DAY + 1, false);
    assert_eq!(names(&dropped), vec!["edge_4"]);
}

#[test]
fn clean_twice_drops_nothing_the_second_time() {
    let mut store = sample();
    let first = clean_at(&mut store, T0 + 3 * DAY, false);
    assert_eq!(first.len(), 3);
    let kept = ids(&store);
    let second = clean_at(&mut store, T0 + 3 * DAY, false);
    assert!(second.is_empty());
    assert_eq!(ids(&store), kept);
}

#[test]
fn clean_all_drops_everything() {
    let mut store = sample();
    let dropped = clean_at(&mut store, T0, true);
    assert_eq!(names(&dropped), vec!["old_1", "fresh_2", "broken_3", "edge_4"]);
    assert!(store.is_empty());
}

#[test]
fn clean_of_an_empty_store_is_empty() {
    let mut store = Store::new();
    assert!(clean_at(&mut store, T0, false).is_empty());
    assert!(clean_at(&mut store, T0, true).is_empty());
    assert!(store.is_empty());
}

#[test]
fn clean_now_uses_the_present_instant() {
    let mut store = Store::new();
    store.insert("ancient_1".to_string(), meta("ancient_1", Some(0), 1, false));
    store.insert("future_2".to_string(), meta("future_2", Some(i64::MAX / 2), 1, false));
    let dropped = clean_expired_files(&mut store, false);
    assert_eq!(names(&dropped), vec!["ancient_1"]);
    assert_eq!(ids(&store), vec!["future_2"]);
    let dropped = clean_expired_files(&mut store, true);
    assert_eq!(names(&dropped), vec!["future_2"]);
}

#[test]
fn empty_trash_needs_the_confirmation() {
    let mut store = sample();
    assert!(handle_empty_trash(false, &mut store).is_empty());
    assert_eq!(store.len(), 4);
    let dropped = handle_empty_trash(true, &mut store);
    assert_eq!(names(&dropped), vec!["old_1", "fresh_2", "broken_3", "edge_4"]);
    assert!(store.is_empty());
    assert!(handle_empty_trash(true, &mut store).is_empty());
}

#[test]
fn discarding_probes_first_and_removes_by_recorded_kind() {
    let file = Entry { id: "old_1".to_string(), meta: meta("old_1", Some(T0), 1, false) };
    let dir = Entry { id: "d_2".to_string(), meta: meta("d_2", Some(T0), 1, true) };
    match discard_probe(&file) {
        FsAction::Probe { path } => assert_eq!(path, "/trash/old_1"),
        _ => panic!("a probe comes first"),
    }
    assert!(discard_action(&file, FsEvent::Missing).is_none());
    assert!(discard_action(&file, FsEvent::Failed).is_none());
    assert!(discard_action(&file, FsEvent::Done).is_none());
    match discard_action(&file, FsEvent::Found { is_dir: true }) {
        Some(FsAction::Remove { path, tree }) => {
            assert_eq!(path, "/trash/old_1");
            assert!(!tree);
        }
        _ => panic!("a found copy is removed"),
    }
    match discard_action(&dir, FsEvent::Found { is_dir: false }) {
        Some(FsAction::Remove { path, tree }) => {
            assert_eq!(path, "/trash/d_2");
            assert!(tree);
        }
        _ => panic!("a found copy is removed"),
    }
}

#[test]
fn only_a_lone_y_confirms() {
    for yes in ["y", "Y", " y", "y\n", "  Y \r\n", "\ty\u{a0}", "\u{3000}y\u{2003}"] {
        assert!(confirms(yes), "{:?}", yes);
        assert_eq!(confirms(yes), yes.trim().eq_ignore_ascii_case("y"));
    }
    for no in ["", " ", "\n", "n", "N", "yes", "yy", "y y", "ye", "1", "ý", "y.", "\u{200b}y"] {
        assert!(!confirms(no), "{:?}", no);
        assert_eq!(confirms(no), no.trim().eq_ignore_ascii_case("y"));
    }
}
