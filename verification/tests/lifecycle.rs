//! The protocols run against a small in-memory file system.

use std::collections::BTreeMap;

use safe_rm::clean::{clean_at, discard_action, discard_probe};
use safe_rm::clock::Moment;
use safe_rm::delete::{DeleteRun, DeleteStage};
use safe_rm::disk::{FsAction, FsEvent};
use safe_rm::error::TrashError;
use safe_rm::paths::Resolved;
use safe_rm::restore::{handle_restore, RestoreRun};
use safe_rm::store::{Entry, Store};
use safe_rm::tree::{copy_dir_all, restore_dir_all, DirItem, TreeAction, TreeCopy, TreeEvent};

const T0: i64 = 1_705_312_800;
const DAY: i64 = 86_400;
const TRASH: &str = "/home/u/.safe-rm/trash";

#[derive(Clone, Debug, PartialEq)]
enum Node {
    File(Vec<u8>),
    Dir,
}

/// Paths map to files or directories; a directory's items are the paths
/// directly below it.
#[derive(Clone, Debug, PartialEq, Default)]
struct FakeFs {
    nodes: BTreeMap<String, Node>,
    /// Paths whose removal fails.
    pinned: Vec<String>,
    /// Destinations to which nothing can be copied.
    unwritable: Vec<String>,
}

impl FakeFs {
    fn with(entries: &[(&str, Option<&str>)]) -> FakeFs {
        let mut fs = FakeFs::default();
        for (path, content) in entries {
            let node = match content {
                Some(text) => Node::File(text.as_bytes().to_vec()),
                None => Node::Dir,
            };
            fs.nodes.insert(path.to_string(), node);
        }
        fs
    }

    fn kind(&self, path: &str) -> Option<bool> {
        self.nodes.get(path).map(|n| *n == Node::Dir)
    }

    fn read(&self, path: &str) -> Option<String> {
        match self.nodes.get(path) {
            Some(Node::File(bytes)) => Some(String::from_utf8(bytes.clone()).unwrap()),
            _ => None,
        }
    }

    fn below(&self, dir: &str) -> Vec<String> {
        let prefix = format!("{}/", dir);
        self.nodes.keys().filter(|p| p.starts_with(&prefix)).cloned().collect()
    }

    fn list(&self, dir: &str) -> Option<Vec<DirItem>> {
        if self.kind(dir) != Some(true) {
            return None;
        }
        let prefix = format!("{}/", dir);
        let mut items = Vec::new();
        for path in self.below(dir) {
            let name = &path[prefix.len()..];
            if !name.contains('/') {
                items.push(DirItem { name: name.to_string(), is_dir: self.nodes[&path] == Node::Dir });
            }
        }
        Some(items)
    }

    fn copy_file(&mut self, from: &str, to: &str) -> bool {
        if self.unwritable.iter().any(|p| p == to) {
            return false;
        }
        match self.nodes.get(from).cloned() {
            Some(Node::File(bytes)) => {
                self.nodes.insert(to.to_string(), Node::File(bytes));
                true
            }
            _ => false,
        }
    }

    fn make_dir(&mut self, path: &str) -> bool {
        if self.unwritable.iter().any(|p| p == path) {
            return false;
        }
        match self.nodes.get(path) {
            Some(Node::File(_)) => false,
            _ => {
                self.nodes.insert(path.to_string(), Node::Dir);
                true
            }
        }
    }

    fn remove(&mut self, path: &str, tree: bool) -> bool {
        if self.pinned.iter().any(|p| p == path) {
            return false;
        }
        match (self.kind(path), tree) {
            (Some(true), true) => {
                for inner in self.below(path) {
                    self.nodes.remove(&inner);
                }
                self.nodes.remove(path);
                true
            }
            (Some(false), false) => {
                self.nodes.remove(path);
                true
            }
            _ => false,
        }
    }

    fn walk(&mut self, mut walk: TreeCopy) -> bool {
        while let Some(action) = walk.action() {
            let event = match action {
                TreeAction::MakeDir { path } => {
                    if self.make_dir(&path) {
                        TreeEvent::Done
                    } else {
                        TreeEvent::Failed
                    }
                }
                TreeAction::ListDir { path } => match self.list(&path) {
                    Some(items) => TreeEvent::Listing(items),
                    None => TreeEvent::Failed,
                },
                TreeAction::CopyFile { from, to } => {
                    if self.copy_file(&from, &to) {
                        TreeEvent::Done
                    } else {
                        TreeEvent::Failed
                    }
                }
            };
            walk.advance(event);
        }
        walk.outcome() == Some(true)
    }

    fn perform(&mut self, action: &FsAction, into_trash: bool) -> FsEvent {
        let ok = match action {
            FsAction::Probe { path } => {
                return match self.kind(path) {
                    Some(is_dir) => FsEvent::Found { is_dir },
                    None => FsEvent::Missing,
                };
            }
            FsAction::Copy { from, to, tree: true } => {
                if into_trash {
                    self.walk(copy_dir_all(from, to))
                } else {
                    self.walk(restore_dir_all(from, to))
                }
            }
            FsAction::Copy { from, to, tree: false } => self.copy_file(from, to),
            FsAction::Remove { path, tree } => self.remove(path, *tree),
        };
        if ok {
            FsEvent::Done
        } else {
            FsEvent::Failed
        }
    }
}

fn moment(unix: i64) -> Moment {
    Moment { unix, text: "2024-01-15 10:00:00".to_string() }
}

fn resolved(fs: &FakeFs, path: &str) -> Option<Resolved> {
    fs.kind(path).map(|is_dir| Resolved { path: path.to_string(), is_dir })
}

fn delete(
    fs: &mut FakeFs,
    store: &mut Store,
    path: &str,
    days: i64,
    force: bool,
    unix: i64,
) -> Result<(), TrashError> {
    let mut run = DeleteRun::begin(resolved(fs, path), days, force, TRASH, moment(unix))?;
    while let Some(action) = run.action() {
        let event = fs.perform(&action, true);
        run.advance(event, store);
    }
    run.outcome().unwrap()
}

fn finish_restore(fs: &mut FakeFs, store: &mut Store, mut run: RestoreRun) -> Result<(), TrashError> {
    while let Some(action) = run.action() {
        let event = fs.perform(&action, false);
        run.advance(event, store);
    }
    run.outcome().unwrap()
}

fn restore(fs: &mut FakeFs, store: &mut Store, id: &str, force: bool) -> Result<(), TrashError> {
    let run = handle_restore(id, force, store)?;
    finish_restore(fs, store, run)
}

fn discard(fs: &mut FakeFs, dropped: &[Entry]) {
    for entry in dropped {
        let found = fs.perform(&discard_probe(entry), false);
        if let Some(removal) = discard_action(entry, found) {
            fs.perform(&removal, false);
        }
    }
}

fn home() -> FakeFs {
    FakeFs::with(&[
        ("/home/u", None),
        ("/home/u/.safe-rm", None),
        (TRASH, None),
        ("/home/u/notes.txt", Some("remember the milk")),
        ("/home/u/proj", None),
        ("/home/u/proj/a.txt", Some("alpha")),
        ("/home/u/proj/sub", None),
        ("/home/u/proj/sub/b.txt", Some("beta")),
        ("/etc", None),
        ("/etc/motd", Some("welcome")),
    ])
}

#[test]
fn deleted_file_expires_and_is_cleaned() {
    let mut fs = home();
    let mut store = Store::new();
    assert_eq!(delete(&mut fs, &mut store, "/home/u/notes.txt", 1, false, T0), Ok(()));

    let id = format!("notes.txt_{}", T0);
    let trash_path = format!("{}/{}", TRASH, id);
    assert!(store.contains(&id));
    assert_eq!(fs.kind("/home/u/notes.txt"), None);
    assert_eq!(fs.read(&trash_path).as_deref(), Some("remember the milk"));
    let meta = store.get(&id).unwrap();
    assert_eq!(meta.original_path, "/home/u/notes.txt");
    assert_eq!(meta.trash_path, trash_path);
    assert_eq!(meta.delete_time, "2024-01-15 10:00:00");
    assert_eq!(meta.deleted_at, Some(T0));
    assert_eq!(meta.expire_days, 1);
    assert!(!meta.is_dir);

    let dropped = clean_at(&mut store, T0 + 2 * DAY, false);
    assert_eq!(dropped.len(), 1);
    assert_eq!(dropped[0].id, id);
    discard(&mut fs, &dropped);
    assert!(store.is_empty());
    assert_eq!(fs.kind(&trash_path), None);

    assert_eq!(restore(&mut fs, &mut store, &id, false), Err(TrashError::NotFound));
}

#[test]
fn deleted_directory_is_restored_with_its_tree() {
    let mut fs = home();
    let before = fs.clone();
    let mut store = Store::new();
    assert_eq!(delete(&mut fs, &mut store, "/home/u/proj", 7, false, T0), Ok(()));

    let id = format!("proj_{}", T0);
    let trash_path = format!("{}/{}", TRASH, id);
    assert_eq!(fs.kind("/home/u/proj"), None);
    assert_eq!(fs.kind("/home/u/proj/a.txt"), None);
    assert_eq!(fs.kind(&trash_path), Some(true));
    assert_eq!(fs.read(&format!("{}/a.txt", trash_path)).as_deref(), Some("alpha"));
    assert_eq!(fs.kind(&format!("{}/sub", trash_path)), Some(true));
    assert_eq!(fs.read(&format!("{}/sub/b.txt", trash_path)).as_deref(), Some("beta"));
    assert!(store.get(&id).unwrap().is_dir);

    assert_eq!(restore(&mut fs, &mut store, &id, false), Ok(()));
    assert_eq!(fs.read("/home/u/proj/a.txt").as_deref(), Some("alpha"));
    assert_eq!(fs.read("/home/u/proj/sub/b.txt").as_deref(), Some("beta"));
    assert_eq!(fs, before);
    assert!(store.is_empty());
}

#[test]
fn delete_then_restore_round_trips_a_file() {
    let mut fs = home();
    let before = fs.clone();
    let mut store = Store::new();
    assert_eq!(delete(&mut fs, &mut store, "/home/u/notes.txt", 3, false, T0), Ok(()));
    assert_ne!(fs, before);
    let id = format!("notes.txt_{}", T0);
    assert_eq!(restore(&mut fs, &mut store, &id, false), Ok(()));
    assert_eq!(fs, before);
    assert!(!store.contains(&id));
    assert_eq!(store.len(), 0);
}

#[test]
fn protected_path_is_refused_without_force() {
    let mut fs = home();
    let before = fs.clone();
    let mut store = Store::new();
    assert_eq!(
        delete(&mut fs, &mut store, "/etc/motd", 7, false, T0),
        Err(TrashError::Protected)
    );
    assert_eq!(fs, before);
    assert!(store.is_empty());
}

#[test]
fn protected_path_is_deleted_with_force() {
    let mut fs = home();
    let mut store = Store::new();
    assert_eq!(delete(&mut fs, &mut store, "/etc/motd", 7, true, T0), Ok(()));
    assert_eq!(fs.kind("/etc/motd"), None);
    assert!(store.contains(&format!("motd_{}", T0)));
}

#[test]
fn missing_path_is_not_found_even_with_force() {
    let mut fs = home();
    let before = fs.clone();
    let mut store = Store::new();
    assert_eq!(
        delete(&mut fs, &mut store, "/home/u/nothing", 7, false, T0),
        Err(TrashError::NotFound)
    );
    assert_eq!(
        delete(&mut fs, &mut store, "/etc/nothing", 7, true, T0),
        Err(TrashError::NotFound)
    );
    assert_eq!(fs, before);
    assert!(store.is_empty());
}

#[test]
fn failed_removal_rolls_the_trash_copy_back() {
    let mut fs = home();
    fs.pinned.push("/home/u/notes.txt".to_string());
    let before = fs.clone();
    let mut store = Store::new();

    let mut run =
        DeleteRun::begin(resolved(&fs, "/home/u/notes.txt"), 7, false, TRASH, moment(T0)).unwrap();
    let trash_path = format!("{}/notes.txt_{}", TRASH, T0);

    let copy = run.action().unwrap();
    assert_eq!(fs.perform(&copy, true), FsEvent::Done);
    run.advance(FsEvent::Done, &mut store);
    assert_eq!(run.stage, DeleteStage::Removing);
    assert!(fs.read(&trash_path).is_some());

    let removal = run.action().unwrap();
    assert_eq!(fs.perform(&removal, true), FsEvent::Failed);
    run.advance(FsEvent::Failed, &mut store);
    assert_eq!(run.stage, DeleteStage::RollingBack);

    let undo = run.action().unwrap();
    match &undo {
        FsAction::Remove { path, tree } => {
            assert_eq!(path, &trash_path);
            assert!(!*tree);
        }
        _ => panic!("the rollback must remove the trash copy"),
    }
    let undone = fs.perform(&undo, true);
    run.advance(undone, &mut store);

    assert_eq!(run.outcome(), Some(Err(TrashError::IoFailure)));
    assert!(run.action().is_none());
    assert!(store.is_empty());
    assert_eq!(fs, before);
    assert_eq!(fs.read("/home/u/notes.txt").as_deref(), Some("remember the milk"));
}

#[test]
fn failed_copy_fails_the_deletion_and_leaves_the_original() {
    let mut fs = home();
    fs.unwritable.push(format!("{}/notes.txt_{}", TRASH, T0));
    let before = fs.clone();
    let mut store = Store::new();
    assert_eq!(
        delete(&mut fs, &mut store, "/home/u/notes.txt", 7, false, T0),
        Err(TrashError::IoFailure)
    );
    assert_eq!(fs, before);
    assert!(store.is_empty());
}

#[test]
fn half_copied_directory_is_removed_from_the_trash() {
    let mut fs = home();
    let trash_path = format!("{}/proj_{}", TRASH, T0);
    fs.unwritable.push(format!("{}/sub/b.txt", trash_path));
    let before = fs.clone();
    let mut store = Store::new();

    let mut run =
        DeleteRun::begin(resolved(&fs, "/home/u/proj"), 7, false, TRASH, moment(T0)).unwrap();
    let copy = run.action().unwrap();
    assert_eq!(fs.perform(&copy, true), FsEvent::Failed);
    assert_eq!(fs.read(&format!("{}/a.txt", trash_path)).as_deref(), Some("alpha"));
    run.advance(FsEvent::Failed, &mut store);
    assert_eq!(run.stage, DeleteStage::RollingBack);

    let undo = run.action().unwrap();
    assert_eq!(fs.perform(&undo, true), FsEvent::Done);
    run.advance(FsEvent::Done, &mut store);
    assert_eq!(run.outcome(), Some(Err(TrashError::IoFailure)));
    assert_eq!(fs, before);
    assert!(store.is_empty());
}

#[test]
fn restore_of_unknown_entry_is_not_found() {
    let mut fs = home();
    let mut store = Store::new();
    assert_eq!(restore(&mut fs, &mut store, "ghost_1", false), Err(TrashError::NotFound));
    assert_eq!(restore(&mut fs, &mut store, "ghost_1", true), Err(TrashError::NotFound));
}

#[test]
fn restore_reports_vanished_trash_content_and_keeps_the_entry() {
    let mut fs = home();
    let mut store = Store::new();
    delete(&mut fs, &mut store, "/home/u/notes.txt", 7, false, T0).unwrap();
    let id = format!("notes.txt_{}", T0);
    assert!(fs.remove(&format!("{}/{}", TRASH, id), false));
    assert_eq!(restore(&mut fs, &mut store, &id, false), Err(TrashError::MissingContent));
    assert!(store.contains(&id));
}

#[test]
fn restore_refuses_to_overwrite_without_force() {
    let mut fs = home();
    let mut store = Store::new();
    delete(&mut fs, &mut store, "/home/u/notes.txt", 7, false, T0).unwrap();
    let id = format!("notes.txt_{}", T0);
    fs.nodes.insert("/home/u/notes.txt".to_string(), Node::File(b"newer".to_vec()));
    let before = fs.clone();
    assert_eq!(restore(&mut fs, &mut store, &id, false), Err(TrashError::Conflict));
    assert_eq!(fs, before);
    assert!(store.contains(&id));
}

#[test]
fn forced_restore_replaces_what_took_the_place() {
    let mut fs = home();
    let mut store = Store::new();
    delete(&mut fs, &mut store, "/home/u/notes.txt", 7, false, T0).unwrap();
    let id = format!("notes.txt_{}", T0);
    // A directory now sits where the file was: it is removed as a directory.
    fs.nodes.insert("/home/u/notes.txt".to_string(), Node::Dir);
    fs.nodes.insert("/home/u/notes.txt/x".to_string(), Node::File(b"x".to_vec()));
    assert_eq!(restore(&mut fs, &mut store, &id, true), Ok(()));
    assert_eq!(fs.read("/home/u/notes.txt").as_deref(), Some("remember the milk"));
    assert_eq!(fs.kind("/home/u/notes.txt/x"), None);
    assert_eq!(fs.kind(&format!("{}/{}", TRASH, id)), None);
    assert!(!store.contains(&id));
}

#[test]
fn failed_copy_back_keeps_the_entry() {
    let mut fs = home();
    let mut store = Store::new();
    delete(&mut fs, &mut store, "/home/u/notes.txt", 7, false, T0).unwrap();
    let id = format!("notes.txt_{}", T0);
    fs.unwritable.push("/home/u/notes.txt".to_string());
    assert_eq!(restore(&mut fs, &mut store, &id, false), Err(TrashError::IoFailure));
    assert!(store.contains(&id));
    assert!(fs.read(&format!("{}/{}", TRASH, id)).is_some());
}

#[test]
fn failed_trash_cleanup_fails_the_restore_but_drops_the_entry() {
    let mut fs = home();
    let mut store = Store::new();
    delete(&mut fs, &mut store, "/home/u/notes.txt", 7, false, T0).unwrap();
    let id = format!("notes.txt_{}", T0);
    fs.pinned.push(format!("{}/{}", TRASH, id));
    assert_eq!(restore(&mut fs, &mut store, &id, false), Err(TrashError::IoFailure));
    assert!(!store.contains(&id));
    assert_eq!(fs.read("/home/u/notes.txt").as_deref(), Some("remember the milk"));
}

#[test]
fn second_delete_in_the_same_second_takes_the_same_identifier() {
    let mut fs = home();
    let mut store = Store::new();
    delete(&mut fs, &mut store, "/home/u/notes.txt", 7, false, T0).unwrap();
    fs.nodes.insert("/home/u/notes.txt".to_string(), Node::File(b"second".to_vec()));
    delete(&mut fs, &mut store, "/home/u/notes.txt", 2, false, T0).unwrap();
    let id = format!("notes.txt_{}", T0);
    assert_eq!(store.len(), 1);
    assert_eq!(store.get(&id).unwrap().expire_days, 2);
    assert_eq!(fs.read(&format!("{}/{}", TRASH, id)).as_deref(), Some("second"));
}

#[test]
fn tree_walk_visits_depth_first_in_listing_order() {
    let mut fs = FakeFs::with(&[
        ("/s", None),
        ("/s/a", None),
        ("/s/a/one", Some("1")),
        ("/s/b", Some("2")),
    ]);
    let mut walk = copy_dir_all("/s", "/d");
    let mut trace = Vec::new();
    while let Some(action) = walk.action() {
        let event = match action {
            TreeAction::MakeDir { path } => {
                trace.push(format!("mkdir {}", path));
                assert!(fs.make_dir(&path));
                TreeEvent::Done
            }
            TreeAction::ListDir { path } => {
                trace.push(format!("list {}", path));
                TreeEvent::Listing(fs.list(&path).unwrap())
            }
            TreeAction::CopyFile { from, to } => {
                trace.push(format!("copy {} {}", from, to));
                assert!(fs.copy_file(&from, &to));
                TreeEvent::Done
            }
        };
        walk.advance(event);
    }
    assert_eq!(walk.outcome(), Some(true));
    assert_eq!(
        trace,
        vec![
            "mkdir /d",
            "list /s",
            "mkdir /d/a",
            "list /s/a",
            "copy /s/a/one /d/a/one",
            "copy /s/b /d/b",
        ]
    );
    assert_eq!(fs.read("/d/a/one").as_deref(), Some("1"));
    assert_eq!(fs.read("/d/b").as_deref(), Some("2"));
}

#[test]
fn tree_walk_stops_at_the_first_failure() {
    let mut walk = copy_dir_all("/s", "/d");
    walk.advance(TreeEvent::Done);
    walk.advance(TreeEvent::Listing(vec![
        DirItem { name: "x".to_string(), is_dir: false },
        DirItem { name: "y".to_string(), is_dir: false },
    ]));
    match walk.action() {
        Some(TreeAction::CopyFile { from, to }) => {
            assert_eq!(from, "/s/x");
            assert_eq!(to, "/d/x");
        }
        _ => panic!("the first listed file comes first"),
    }
    walk.advance(TreeEvent::Failed);
    assert_eq!(walk.outcome(), Some(false));
    assert!(walk.action().is_none());
    walk.advance(TreeEvent::Done);
    assert_eq!(walk.outcome(), Some(false));
}
