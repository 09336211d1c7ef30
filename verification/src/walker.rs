//! The walk of a directory tree: which of the entries that were visited are
//! files to scan.

use vstd::prelude::*;
use std::path::Path;
use crate::text::{chars_of, optional_text, same_chars};
use crate::vocabulary::{allowed_extensions, string_texts, ALLOWED_EXTENSIONS};

verus! {

/// One entry of a walk. A walk lists a directory before what lies in it, and
/// what lies in a directory is deeper than the directory.
pub struct WalkEntry {
    pub path: String,
    /// How far below the root of the walk the entry lies; the root itself is at 0.
    pub depth: usize,
    pub is_dir: bool,
    pub is_file: bool,
    /// Whether the repository's ignore rules exclude the entry; `None`
    /// where there is no repository or it could not tell.
    pub ignored: Option<bool>,
}

/// What a `WalkEntry` holds.
pub struct WalkEntryView {
    pub path: Seq<char>,
    pub depth: nat,
    pub is_dir: bool,
    pub is_file: bool,
    pub ignored: Option<bool>,
}

impl View for WalkEntry {
    type V = WalkEntryView;

    open spec fn view(&self) -> WalkEntryView {
        WalkEntryView {
            path: self.path@,
            depth: self.depth as nat,
            is_dir: self.is_dir,
            is_file: self.is_file,
            ignored: self.ignored,
        }
    }
}

/// What a list of entries holds.
pub open spec fn walk_entries(entries: Seq<WalkEntry>) -> Seq<WalkEntryView> {
    entries.map_values(|entry: WalkEntry| entry@)
}

/// What `Path::extension` of std gives for a path taken as text: the part of
/// the file name behind its last dot, or `None` where the path has no such
/// part.
pub uninterp spec fn path_extension(path: Seq<char>) -> Option<Seq<char>>;

/// `Path::extension` of std, on a path given as text. Whether the path has
/// an extension, and which, are what `path_extension` stands for.
#[verifier::external_body]
fn extension_of(path: &str) -> (result: Option<String>)
    ensures
        optional_text(result) == path_extension(path@),
{
    match Path::new(path).extension() {
        Some(extension) => match extension.to_str() {
            Some(text) => Some(text.to_owned()),
            None => None,
        },
        None => None,
    }
}

/// Whether the path has an extension and that extension is an allowed one.
pub open spec fn valid_extension(path: Seq<char>) -> bool {
    match path_extension(path) {
        Some(extension) => allowed_extensions().contains(extension),
        None => false,
    }
}

/// Whether `extension` is one of the allowed extensions.
pub fn is_allowed_extension(extension: &str) -> (result: bool)
    ensures
        result == allowed_extensions().contains(extension@),
{
    let chars = chars_of(extension);
    let mut i: usize = 0;
    while i < ALLOWED_EXTENSIONS.len()
        invariant
            i <= ALLOWED_EXTENSIONS@.len(),
            chars@ == extension@,
            forall|k: int| 0 <= k < i ==> allowed_extensions()[k] != extension@,
        decreases ALLOWED_EXTENSIONS@.len() - i,
    {
        let allowed = chars_of(ALLOWED_EXTENSIONS[i]);
        assert(allowed_extensions()[i as int] == allowed@);
        if same_chars(&chars, &allowed) {
            return true;
        }
        i += 1;
    }
    false
}

/// Whether the path has one of the allowed extensions.
pub fn is_valid_extension(path: &str) -> (result: bool)
    ensures
        result == valid_extension(path@),
{
    match extension_of(path) {
        Some(extension) => is_allowed_extension(extension.as_str()),
        None => false,
    }
}

/// Whether the walk does not go into the entry: a directory that the
/// repository ignores.
pub open spec fn prunes(entry: WalkEntryView, in_repository: bool) -> bool {
    in_repository && entry.is_dir && entry.ignored == Some(true)
}

/// Whether every entry behind the one at `i` and before the one at `j` is
/// deeper than the one at `i`.
pub open spec fn open_until(entries: Seq<WalkEntryView>, i: int, j: int) -> bool {
    forall|k: int| i < k < j ==> (#[trigger] entries[k]).depth > entries[i].depth
}

/// Whether the entry at `j` lies under the one at `i`: it comes later, and
/// from `i` on to it the walk has stayed deeper than `i`.
pub open spec fn lies_under(entries: Seq<WalkEntryView>, i: int, j: int) -> bool {
    0 <= i < j < entries.len() && open_until(entries, i, j + 1)
}

/// Whether the entry at `j` lies under a directory that the walk does not go into.
pub open spec fn under_pruned(entries: Seq<WalkEntryView>, in_repository: bool, j: int) -> bool {
    exists|i: int| prunes(#[trigger] entries[i], in_repository) && lies_under(entries, i, j)
}

/// Whether the entry, taken by itself, is a file to scan: a file with an
/// allowed extension that the repository does not ignore.
pub open spec fn is_candidate(entry: WalkEntryView, in_repository: bool) -> bool {
    &&& entry.is_file
    &&& valid_extension(entry.path)
    &&& !(in_repository && entry.ignored == Some(true))
}

/// Whether the walk retains the entry at `j`.
pub open spec fn retained(entries: Seq<WalkEntryView>, in_repository: bool, j: int) -> bool {
    &&& is_candidate(entries[j], in_repository)
    &&& !prunes(entries[j], in_repository)
    &&& !under_pruned(entries, in_repository, j)
}

/// The paths of the entries that the walk retains among the first `n`, in
/// the order of the walk.
pub open spec fn candidates_first(entries: Seq<WalkEntryView>, in_repository: bool, n: nat) -> Seq<
    Seq<char>,
>
    decreases n,
{
    if n == 0 {
        Seq::empty()
    } else {
        let before = candidates_first(entries, in_repository, (n - 1) as nat);
        if retained(entries, in_repository, n - 1) {
            before.push(entries[n - 1].path)
        } else {
            before
        }
    }
}

/// The paths of the files to scan.
pub open spec fn candidates(entries: Seq<WalkEntryView>, in_repository: bool) -> Seq<Seq<char>> {
    candidates_first(entries, in_repository, entries.len())
}

/// Whether the repository ignores the entry.
fn is_ignored(entry: &WalkEntry) -> (result: bool)
    ensures
        result == (entry.ignored == Some(true)),
{
    match entry.ignored {
        Some(ignored) => ignored,
        None => false,
    }
}

/// Whether the walk goes on into the entry. It stops only at a directory
/// that the repository ignores.
pub fn enters(entry: &WalkEntry, in_repository: bool) -> (result: bool)
    ensures
        result == !prunes(entry@, in_repository),
{
    !(in_repository && entry.is_dir && is_ignored(entry))
}

/// Picks the files to scan from the entries of a walk. Inside a repository
/// the walk goes into no ignored directory and retains no ignored file.
pub fn filter_files(entries: &Vec<WalkEntry>, in_repository: bool) -> (result: Vec<String>)
    ensures
        string_texts(result@) == candidates(walk_entries(entries@), in_repository),
{
    let mut files: Vec<String> = Vec::new();
    let mut skip_below: Option<usize> = None;
    let ghost views = walk_entries(entries@);
    let ghost mut root: int = 0;
    let mut j: usize = 0;
    while j < entries.len()
        invariant
            j <= entries.len(),
            views == walk_entries(entries@),
            string_texts(files@) == candidates_first(views, in_repository, j as nat),
            // While the walk is under an ignored directory, `root` is the outermost such
            // directory; else the walk has come back up from every one it has met.
            match skip_below {
                Some(depth) => {
                    &&& 0 <= root < j
                    &&& prunes(views[root], in_repository)
                    &&& views[root].depth == depth
                    &&& open_until(views, root, j as int)
                    &&& !under_pruned(views, in_repository, root)
                },
                None => forall|i: int|
                    0 <= i < j && prunes(#[trigger] views[i], in_repository) ==> !open_until(
                        views,
                        i,
                        j as int,
                    ),
            },
        decreases entries.len() - j,
    {
        let entry = &entries[j];
        let mut inside = false;
        if let Some(depth) = skip_below {
            if entry.depth > depth {
                inside = true;
            } else {
                skip_below = None;
            }
        }
        if !inside {
            if !enters(entry, in_repository) {
                skip_below = Some(entry.depth);
                proof {
                    root = j as int;
                }
            } else if entry.is_file && is_valid_extension(entry.path.as_str()) && !(in_repository
                && is_ignored(entry)) {
                files.push(entry.path.clone());
            }
        }
        j += 1;
    }
    files
}

/// Whether `path` is the path of a retained entry among the first `n`.
pub open spec fn is_retained_path(
    entries: Seq<WalkEntryView>,
    in_repository: bool,
    n: nat,
    path: Seq<char>,
) -> bool {
    exists|j: int|
        0 <= j < n && #[trigger] retained(entries, in_repository, j) && entries[j].path == path
}

/// The candidates among the first `n` entries are the paths of the retained
/// entries and no others: each candidate is the path of a retained entry, and
/// each retained entry's path is a candidate.
pub proof fn lemma_candidates_first(entries: Seq<WalkEntryView>, in_repository: bool, n: nat)
    requires
        n <= entries.len(),
    ensures
        forall|k: int|
            0 <= k < candidates_first(entries, in_repository, n).len() ==> is_retained_path(
                entries,
                in_repository,
                n,
                #[trigger] candidates_first(entries, in_repository, n)[k],
            ),
        forall|j: int|
            0 <= j < n && #[trigger] retained(entries, in_repository, j) ==> candidates_first(
                entries,
                in_repository,
                n,
            ).contains(entries[j].path),
    decreases n,
{
    if n > 0 {
        let before = candidates_first(entries, in_repository, (n - 1) as nat);
        let now = candidates_first(entries, in_repository, n);
        lemma_candidates_first(entries, in_repository, (n - 1) as nat);
        assert forall|j: int|
            0 <= j < n && #[trigger] retained(entries, in_repository, j) implies now.contains(
            entries[j].path,
        ) by {
            if j < n - 1 {
                let k = choose|k: int| 0 <= k < before.len() && before[k] == entries[j].path;
                assert(now[k] == entries[j].path);
            } else {
                assert(now[before.len() as int] == entries[j].path);
            }
        }
    }
}

/// Whether no two entries have the same path.
pub open spec fn distinct_paths(entries: Seq<WalkEntryView>) -> bool {
    forall|a: int, b: int|
        0 <= a < b < entries.len() ==> (#[trigger] entries[a]).path != (#[trigger] entries[b]).path
}

/// In a repository no file under an ignored directory is among the files to
/// scan, whatever its extension.
pub proof fn lemma_ignored_directory_excluded(entries: Seq<WalkEntryView>, dir: int, file: int)
    requires
        distinct_paths(entries),
        0 <= dir < entries.len(),
        entries[dir].is_dir,
        entries[dir].ignored == Some(true),
        lies_under(entries, dir, file),
    ensures
        !retained(entries, true, file),
        !candidates(entries, true).contains(entries[file].path),
{
    lemma_candidates_first(entries, true, entries.len());
}

} // verus!
