//! Finding a session log by its id, or by a unique prefix of it.
//!
//! The search runs over the regular files below the projects directory, in
//! the order in which a depth-first walk of that directory meets them.  The
//! walk itself is the caller's; this module decides which file is meant.
use vstd::prelude::*;

use crate::paths::{
    file_name, file_stem, has_jsonl_extension, is_jsonl_path, std_extension, std_file_name,
    std_file_stem,
};
use crate::text::{chars_of, starts_with_chars, string_views};
use vstd::string::StringExecFns;

verus! {

/// Why no single session log could be chosen.
#[derive(Debug, PartialEq, Eq)]
pub enum SessionLookupError {
    /// No log has the id as its name, and none starts with it.
    NotFound,
    /// No log has the id as its name, and several start with it.
    Ambiguous(Vec<String>),
}

/// The file `path` is the log of the session `id`: its name is `<id>.jsonl`.
pub open spec fn is_exact_match(path: Seq<char>, id: Seq<char>) -> bool {
    std_file_name(path) == Some(id + ".jsonl"@)
}

/// The file `path` is a log whose session id starts with `prefix`: its
/// extension is `jsonl` and its stem begins with `prefix`.
pub open spec fn is_prefix_match(path: Seq<char>, prefix: Seq<char>) -> bool {
    &&& is_jsonl_path(path)
    &&& match std_file_stem(path) {
        Some(stem) => prefix.is_prefix_of(stem),
        None => false,
    }
}

/// The files of `files` that are logs whose id starts with `prefix`, in
/// their order.
pub open spec fn prefix_matches(files: Seq<Seq<char>>, prefix: Seq<char>) -> Seq<Seq<char>>
    decreases files.len(),
{
    if files.len() == 0 {
        Seq::empty()
    } else {
        let rest = prefix_matches(files.drop_last(), prefix);
        if is_prefix_match(files.last(), prefix) {
            rest.push(files.last())
        } else {
            rest
        }
    }
}


/// `files[i]` is the first log of the session `id`.
pub open spec fn first_exact_at(files: Seq<Seq<char>>, id: Seq<char>, i: int) -> bool {
    &&& 0 <= i < files.len()
    &&& is_exact_match(files[i], id)
    &&& forall|j: int| 0 <= j < i ==> !is_exact_match(#[trigger] files[j], id)
}

/// No file of `files` is the log of the session `id`.
pub open spec fn no_exact(files: Seq<Seq<char>>, id: Seq<char>) -> bool {
    forall|j: int| 0 <= j < files.len() ==> !is_exact_match(#[trigger] files[j], id)
}

/// Whether the file at `path` is the log of the session whose log name is
/// `target`.
fn has_name(path: &String, target: &String) -> (r: bool)
    ensures
        r == (std_file_name(path@) == Some(target@)),
{
    match file_name(path.as_str()) {
        Some(n) => n == *target,
        None => false,
    }
}

/// Whether the file at `path` is a log whose session id starts with
/// `prefix`.
fn matches_prefix(path: &String, prefix: &Vec<char>) -> (r: bool)
    ensures
        r == is_prefix_match(path@, prefix@),
{
    if !has_jsonl_extension(path.as_str()) {
        return false;
    }
    match file_stem(path.as_str()) {
        Some(stem) => {
            let chars = chars_of(stem.as_str());
            starts_with_chars(&chars, prefix)
        },
        None => false,
    }
}

/// Find the log of the session `session_id` among `files` (the regular
/// files below the projects directory, in walk order): the first file
/// named `<session_id>.jsonl`, or nothing.
pub fn find_session_file(files: &Vec<String>, session_id: &str) -> (r: Option<String>)
    ensures
        match r {
            Some(p) => exists|i: int|
                first_exact_at(string_views(files@), session_id@, i) && p@ == files@[i]@,
            None => no_exact(string_views(files@), session_id@),
        },
{
    let mut target = String::from_str(session_id);
    target.append(".jsonl");
    let mut i: usize = 0;
    while i < files.len()
        invariant
            i <= files.len(),
            target@ == session_id@ + ".jsonl"@,
            forall|j: int|
                0 <= j < i ==> !is_exact_match(#[trigger] string_views(files@)[j], session_id@),
        decreases files.len() - i,
    {
        if has_name(&files[i], &target) {
            let found = files[i].clone();
            assert(first_exact_at(string_views(files@), session_id@, i as int));
            return Some(found);
        }
        i = i + 1;
    }
    None
}

/// Resolve a session log by exact id or unique prefix.
///
/// An exact match wins at once.  Without one, a unique prefix match is
/// taken; several prefix matches are an ambiguity, none is not-found.
pub fn resolve_session_file(files: &Vec<String>, session_id_or_prefix: &str) -> (r: Result<
    String,
    SessionLookupError,
>)
    ensures
        !no_exact(string_views(files@), session_id_or_prefix@) ==> (r matches Ok(p) && exists|
            i: int,
        |
            first_exact_at(string_views(files@), session_id_or_prefix@, i) && p@ == files@[i]@),
        no_exact(string_views(files@), session_id_or_prefix@) ==> {
            let ms = prefix_matches(string_views(files@), session_id_or_prefix@);
            match r {
                Ok(p) => ms.len() == 1 && p@ == ms[0],
                Err(SessionLookupError::NotFound) => ms.len() == 0,
                Err(SessionLookupError::Ambiguous(v)) => ms.len() > 1 && string_views(v@) == ms,
            }
        },
{
    if let Some(path) = find_session_file(files, session_id_or_prefix) {
        return Ok(path);
    }
    let prefix = chars_of(session_id_or_prefix);
    let mut matches: Vec<String> = Vec::new();
    let mut i: usize = 0;
    while i < files.len()
        invariant
            i <= files.len(),
            prefix@ == session_id_or_prefix@,
            string_views(matches@) == prefix_matches(
                string_views(files@).take(i as int),
                session_id_or_prefix@,
            ),
        decreases files.len() - i,
    {
        assert(string_views(files@).take(i + 1).drop_last() =~= string_views(files@).take(
            i as int,
        ));
        if matches_prefix(&files[i], &prefix) {
            matches.push(files[i].clone());
        }
        i = i + 1;
        assert(string_views(matches@) =~= prefix_matches(
            string_views(files@).take(i as int),
            session_id_or_prefix@,
        ));
    }
    assert(string_views(files@).take(files.len() as int) =~= string_views(files@));
    if matches.len() == 0 {
        Err(SessionLookupError::NotFound)
    } else if matches.len() == 1 {
        let p = matches.pop().unwrap();
        Ok(p)
    } else {
        Err(SessionLookupError::Ambiguous(matches))
    }
}

/// There is at most one first log of a session: so the exact match that
/// [`find_session_file`] returns is the one that [`resolve_session_file`]
/// returns for the same files and id.
pub proof fn lemma_first_exact_unique(files: Seq<Seq<char>>, id: Seq<char>, i: int, j: int)
    requires
        first_exact_at(files, id, i),
        first_exact_at(files, id, j),
    ensures
        i == j,
{
    if i < j {
        assert(!is_exact_match(files[i], id));
    } else if j < i {
        assert(!is_exact_match(files[j], id));
    }
}

/// The file `path` is a `.jsonl` file whose stem starts with `query`.
pub open spec fn stem_starts_with(path: Seq<char>, query: Seq<char>) -> bool {
    &&& std_extension(path) == Some("jsonl"@)
    &&& std_file_stem(path) matches Some(stem)
    &&& query.len() <= stem.len()
    &&& stem.subrange(0, query.len() as int) == query
}

proof fn lemma_prefix_matches_members(files: Seq<Seq<char>>, q: Seq<char>)
    ensures
        forall|k: int|
            0 <= k < prefix_matches(files, q).len() ==> stem_starts_with(
                #[trigger] prefix_matches(files, q)[k],
                q,
            ) && files.contains(prefix_matches(files, q)[k]),
        forall|j: int|
            0 <= j < files.len() && stem_starts_with(#[trigger] files[j], q) ==> prefix_matches(
                files,
                q,
            ).contains(files[j]),
    decreases files.len(),
{
    if files.len() > 0 {
        let pre = files.drop_last();
        lemma_prefix_matches_members(pre, q);
        let rest = prefix_matches(pre, q);
        let ms = prefix_matches(files, q);
        assert forall|k: int| 0 <= k < ms.len() implies stem_starts_with(#[trigger] ms[k], q)
            && files.contains(ms[k]) by {
            if k < rest.len() {
                assert(ms[k] == rest[k]);
                let j = choose|j: int| 0 <= j < pre.len() && pre[j] == rest[k];
                assert(files[j] == pre[j]);
            } else {
                assert(ms[k] == files.last());
                assert(files[files.len() - 1] == files.last());
                if let Some(stem) = std_file_stem(files.last()) {
                    assert(q.is_prefix_of(stem));
                }
            }
        }
        assert forall|j: int| 0 <= j < files.len() && stem_starts_with(#[trigger] files[j], q)
            implies ms.contains(files[j]) by {
            if j < pre.len() {
                assert(files[j] == pre[j]);
                let k = choose|k: int| 0 <= k < rest.len() && rest[k] == pre[j];
                assert(ms[k] == rest[k]);
            } else {
                if let Some(stem) = std_file_stem(files.last()) {
                    assert(q.is_prefix_of(stem));
                }
                assert(ms[ms.len() - 1] == files.last());
            }
        }
    }
}

/// What resolving a session id or prefix answers, as the files show it:
/// an answer is a file named `<query>.jsonl`, or a `.jsonl` file whose stem
/// starts with the query; every file listed as ambiguous is such a file;
/// and not-found means no file is.
pub proof fn lemma_resolution_follows_the_query(
    files: Seq<Seq<char>>,
    q: Seq<char>,
    r: Result<String, SessionLookupError>,
)
    requires
        !no_exact(files, q) ==> (r matches Ok(p) && exists|i: int|
            first_exact_at(files, q, i) && p@ == files[i]),
        no_exact(files, q) ==> {
            let ms = prefix_matches(files, q);
            match r {
                Ok(p) => ms.len() == 1 && p@ == ms[0],
                Err(SessionLookupError::NotFound) => ms.len() == 0,
                Err(SessionLookupError::Ambiguous(v)) => ms.len() > 1 && string_views(v@) == ms,
            }
        },
    ensures
        r matches Ok(p) ==> files.contains(p@) && (std_file_name(p@) == Some(q + ".jsonl"@)
            || stem_starts_with(p@, q)),
        r matches Err(SessionLookupError::Ambiguous(v)) ==> v@.len() > 1 && forall|k: int|
            0 <= k < v@.len() ==> stem_starts_with(#[trigger] v@[k]@, q) && files.contains(
                v@[k]@,
            ),
        r matches Err(SessionLookupError::NotFound) ==> forall|j: int|
            0 <= j < files.len() ==> !stem_starts_with(#[trigger] files[j], q)
                && std_file_name(files[j]) != Some(q + ".jsonl"@),
{
    lemma_prefix_matches_members(files, q);
    let ms = prefix_matches(files, q);
    if !no_exact(files, q) {
        let i = choose|i: int| first_exact_at(files, q, i) && r->Ok_0@ == files[i];
        assert(files.contains(files[i]));
    } else {
        match r {
            Ok(p) => {
                assert(stem_starts_with(ms[0], q));
            },
            Err(SessionLookupError::Ambiguous(v)) => {
                assert forall|k: int| 0 <= k < v@.len() implies stem_starts_with(
                    #[trigger] v@[k]@,
                    q,
                ) && files.contains(v@[k]@) by {
                    assert(string_views(v@)[k] == v@[k]@);
                    assert(ms[k] == v@[k]@);
                }
            },
            Err(SessionLookupError::NotFound) => {
                assert forall|j: int| 0 <= j < files.len() implies !stem_starts_with(
                    #[trigger] files[j],
                    q,
                ) && std_file_name(files[j]) != Some(q + ".jsonl"@) by {
                    if stem_starts_with(files[j], q) {
                        assert(ms.contains(files[j]));
                    }
                    assert(!is_exact_match(files[j], q));
                }
            },
        }
    }
}

} // verus!
