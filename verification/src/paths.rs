//! Path rules: which paths may be deleted, what a trashed item is called, and
//! where its copy lives.
//!
//! Paths are handled as text. They are expected in canonical absolute form,
//! as the operating system reports them once links and relative parts are
//! resolved.

use vstd::prelude::*;
use crate::error::TrashError;
use crate::text::{chars_of, decimal_text, render_decimal, starts_with};

verus! {

/// Whether `path` begins with one of the protected system prefixes. The test
/// is purely textual: `/library` counts as protected because it begins with
/// `/lib`.
pub open spec fn is_protected(path: Seq<char>) -> bool {
    ||| "/bin"@.is_prefix_of(path)
    ||| "/sbin"@.is_prefix_of(path)
    ||| "/etc"@.is_prefix_of(path)
    ||| "/usr"@.is_prefix_of(path)
    ||| "/lib"@.is_prefix_of(path)
    ||| "/lib64"@.is_prefix_of(path)
    ||| "/root"@.is_prefix_of(path)
    ||| "/boot"@.is_prefix_of(path)
}

/// Decides whether a canonical path lies under a protected system prefix.
pub fn protected_path(path: &str) -> (b: bool)
    ensures
        b == is_protected(path@),
{
    let text = chars_of(path);
    starts_with(&text, "/bin") || starts_with(&text, "/sbin") || starts_with(&text, "/etc")
        || starts_with(&text, "/usr") || starts_with(&text, "/lib") || starts_with(
        &text,
        "/lib64",
    ) || starts_with(&text, "/root") || starts_with(&text, "/boot")
}

/// What the caller found when it resolved a user-supplied path: its canonical
/// absolute form and whether it is a directory.
#[derive(Debug)]
pub struct Resolved {
    pub path: String,
    pub is_dir: bool,
}

/// The guard's verdict on a deletion request. `found` is whether the path
/// resolved to something that exists.
pub open spec fn guard_verdict(found: bool, path: Seq<char>, force: bool) -> Result<
    (),
    TrashError,
> {
    if !found {
        Err(TrashError::NotFound)
    } else if !force && is_protected(path) {
        Err(TrashError::Protected)
    } else {
        Ok(())
    }
}

/// The path safety guard. `resolved` is `None` when the path does not exist
/// or could not be resolved. A protected path passes only with `force`;
/// `force` never makes up for a missing path.
pub fn guard(resolved: &Option<Resolved>, force: bool) -> (r: Result<(), TrashError>)
    ensures
        r == match resolved {
            Some(found) => guard_verdict(true, found.path@, force),
            None => guard_verdict(false, Seq::empty(), force),
        },
{
    match resolved {
        None => Err(TrashError::NotFound),
        Some(found) => {
            if !force && protected_path(found.path.as_str()) {
                Err(TrashError::Protected)
            } else {
                Ok(())
            }
        },
    }
}

/// Where the last component of `path` begins: just after the last `/`, or at
/// 0 when there is none.
pub open spec fn base_start(path: Seq<char>) -> int
    decreases path.len(),
{
    if path.len() == 0 {
        0
    } else if path.last() == '/' {
        path.len() as int
    } else {
        base_start(path.drop_last())
    }
}

/// The last component of `path`: everything after its last `/`.
pub open spec fn base_name_of(path: Seq<char>) -> Seq<char> {
    path.subrange(base_start(path), path.len() as int)
}

/// Whether `path` names something: its last component is not empty. The root
/// directory has none.
pub open spec fn has_base_name(path: Seq<char>) -> bool {
    base_name_of(path).len() > 0
}

/// `base_start` is the one position that follows a `/` (or is 0) and has no
/// `/` after it.
pub proof fn lemma_base_start(path: Seq<char>)
    ensures
        0 <= base_start(path) <= path.len(),
        base_start(path) > 0 ==> path[base_start(path) - 1] == '/',
        forall|k: int| base_start(path) <= k < path.len() ==> path[k] != '/',
    decreases path.len(),
{
    if path.len() > 0 && path.last() != '/' {
        let front = path.drop_last();
        lemma_base_start(front);
        assert forall|k: int| base_start(path) <= k < path.len() implies path[k] != '/' by {
            if k < front.len() {
                assert(front[k] == path[k]);
            }
        }
        if base_start(path) > 0 {
            assert(front[base_start(front) - 1] == path[base_start(path) - 1]);
        }
    }
}

/// Any position that follows a `/` (or is 0) and has no `/` after it is
/// `base_start`.
pub proof fn lemma_base_start_unique(path: Seq<char>, at: int)
    requires
        0 <= at <= path.len(),
        at > 0 ==> path[at - 1] == '/',
        forall|k: int| at <= k < path.len() ==> path[k] != '/',
    ensures
        base_start(path) == at,
    decreases path.len(),
{
    if path.len() > 0 && path.last() != '/' {
        let front = path.drop_last();
        assert(at <= front.len()) by {
            if at == path.len() {
                assert(path[at - 1] == '/');
            }
        }
        assert forall|k: int| at <= k < front.len() implies front[k] != '/' by {
            assert(front[k] == path[k]);
        }
        if at > 0 {
            assert(front[at - 1] == path[at - 1]);
        }
        lemma_base_start_unique(front, at);
    }
}

/// The last component of a path, as text.
pub fn base_name(path: &str) -> (name: String)
    ensures
        name@ == base_name_of(path@),
{
    let text = chars_of(path);
    let mut at: usize = text.len();
    while at > 0 && text[at - 1] != '/'
        invariant
            at <= text.len(),
            forall|k: int| at <= k < text.len() ==> text@[k] != '/',
        decreases at,
    {
        at -= 1;
    }
    proof {
        lemma_base_start_unique(path@, at as int);
    }
    String::from_str(path.substring_char(at, text.len()))
}

/// Decides whether `path` names something, that is, has a last component.
pub fn names_something(path: &str) -> (b: bool)
    ensures
        b == has_base_name(path@),
{
    let text = chars_of(path);
    proof {
        lemma_base_start(path@);
    }
    text.len() > 0 && text[text.len() - 1] != '/'
}

/// `dir` and `name` as one path: joined by a single `/` unless `dir` is empty
/// or already ends with one. `name` is meant to be a relative path.
pub open spec fn joined(dir: Seq<char>, name: Seq<char>) -> Seq<char> {
    if dir.len() == 0 || dir.last() == '/' {
        dir + name
    } else {
        dir + seq!['/'] + name
    }
}

/// The path of `name` inside `dir`.
pub fn join_path(dir: &str, name: &str) -> (path: String)
    ensures
        path@ == joined(dir@, name@),
{
    let text = chars_of(dir);
    let mut path = String::from_str(dir);
    if text.len() > 0 && text[text.len() - 1] != '/' {
        proof {
            reveal_strlit("/");
        }
        path.append("/");
    }
    path.append(name);
    proof {
        if dir@.len() > 0 && dir@.last() != '/' {
            assert("/"@ =~= seq!['/']);
        }
    }
    path
}

/// Where the trash area lies, relative to the user's home directory.
pub const TRASH_DIR: &'static str = ".safe-rm/trash";

/// Where the metadata file lies, relative to the user's home directory.
pub const META_FILE: &'static str = ".safe-rm/metadata.json";

/// The trash area of the user whose home directory is `home`.
pub fn trash_root(home: &str) -> (path: String)
    ensures
        path@ == joined(home@, TRASH_DIR@),
{
    join_path(home, TRASH_DIR)
}

/// The metadata file of the user whose home directory is `home`.
pub fn metadata_file(home: &str) -> (path: String)
    ensures
        path@ == joined(home@, META_FILE@),
{
    join_path(home, META_FILE)
}

/// The identifier of a trashed item: its base name, an underscore, and the
/// Unix time of deletion in seconds. Two items of the same name that are
/// deleted within the same second get the same identifier; the later one
/// then takes the place of the earlier one, in the trash and in the store.
pub open spec fn trash_id_of(path: Seq<char>, unix: int) -> Seq<char> {
    base_name_of(path) + seq!['_'] + decimal_text(unix)
}

/// Builds the trash identifier for `path` deleted at `unix` seconds.
pub fn trash_id(path: &str, unix: i64) -> (id: String)
    ensures
        id@ == trash_id_of(path@, unix as int),
{
    let mut id = base_name(path);
    proof {
        reveal_strlit("_");
    }
    id.append("_");
    let digits = render_decimal(unix as i128);
    id.append(digits.as_str());
    assert("_"@ =~= seq!['_']);
    id
}

} // verus!
