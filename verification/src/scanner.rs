//! The scan of a file's lines, and the findings of a whole run.

use vstd::prelude::*;
use crate::finding::{
    findings, raw_findings, unattributed, without_attribution, Finding, NaiveTodo, RawFinding,
    Todo,
};
use crate::git::{
    blame_findings, find_blame, fully_known, has_attribution, lemma_attribution_keeps_findings,
    line_attribution, FileHistory, FileHistoryView,
};
use crate::matcher::{match_line, todo_matcher};
use crate::text::{optional_text, uppercase};
use crate::vocabulary::{
    search_items_combinations, search_terms, string_texts, TODO_END_TERMS, TODO_SEARCH_TERMS,
};

verus! {

/// A file as it was read: its lines, and what the enclosing repository knows
/// of it.
pub struct SourceFile {
    pub path: String,
    /// The file's lines, the first line first; `None` for a line that could
    /// not be read as text.
    pub lines: Vec<Option<String>>,
    /// `None` where no repository encloses the file.
    pub history: Option<FileHistory>,
}

/// What a run is asked to scan.
pub enum Target {
    /// The path does not exist.
    Missing,
    /// The path is a single file.
    File(SourceFile),
    /// The path is a directory; the files are those that the walk of the
    /// directory retained, in the order in which it visited them.
    Directory(Vec<SourceFile>),
}

/// What a `SourceFile` holds.
pub struct SourceFileView {
    pub path: Seq<char>,
    pub lines: Seq<Option<Seq<char>>>,
    pub history: Option<FileHistoryView>,
}

/// What a `Target` holds.
pub enum TargetView {
    Missing,
    File(SourceFileView),
    Directory(Seq<SourceFileView>),
}

/// The texts of a file's lines.
pub open spec fn line_texts(lines: Seq<Option<String>>) -> Seq<Option<Seq<char>>> {
    lines.map_values(|line: Option<String>| optional_text(line))
}

/// What an optional history holds.
pub open spec fn optional_history(history: Option<FileHistory>) -> Option<FileHistoryView> {
    match history {
        Some(h) => Some(h@),
        None => None,
    }
}

impl View for SourceFile {
    type V = SourceFileView;

    open spec fn view(&self) -> SourceFileView {
        SourceFileView {
            path: self.path@,
            lines: line_texts(self.lines@),
            history: optional_history(self.history),
        }
    }
}

/// What a list of files holds.
pub open spec fn source_files(files: Seq<SourceFile>) -> Seq<SourceFileView> {
    files.map_values(|file: SourceFile| file@)
}

impl View for Target {
    type V = TargetView;

    open spec fn view(&self) -> TargetView {
        match self {
            Target::Missing => TargetView::Missing,
            Target::File(file) => TargetView::File(file@),
            Target::Directory(files) => TargetView::Directory(source_files(files@)),
        }
    }
}

/// The finding of the line at `i`, counted from 0, if that line could be
/// read and has one.
pub open spec fn line_finding(path: Seq<char>, lines: Seq<Option<Seq<char>>>, i: int) -> Option<
    RawFinding,
> {
    match lines[i] {
        Some(line) => match_line(path, line, uppercase(line), i as nat, search_terms()),
        None => None,
    }
}

/// The findings of the first `n` lines, in the order of the lines.
pub open spec fn scan_first(path: Seq<char>, lines: Seq<Option<Seq<char>>>, n: nat) -> Seq<
    RawFinding,
>
    decreases n,
{
    if n == 0 {
        Seq::empty()
    } else {
        let before = scan_first(path, lines, (n - 1) as nat);
        match line_finding(path, lines, n - 1) {
            Some(finding) => before.push(finding),
            None => before,
        }
    }
}

/// The findings of all the lines of a file.
pub open spec fn scan(path: Seq<char>, lines: Seq<Option<Seq<char>>>) -> Seq<RawFinding> {
    scan_first(path, lines, lines.len())
}

/// The findings that are reported for a file: attributed where a repository
/// encloses it, unattributed where none does.
pub open spec fn file_findings(file: SourceFileView) -> Seq<Finding> {
    let raw = scan(file.path, file.lines);
    match file.history {
        Some(history) => blame_findings(history, raw),
        None => raw.map_values(|t: RawFinding| unattributed(t)),
    }
}

/// The findings that a run reports: none at all where the path does not
/// exist; else the findings of each file, file after file.
pub open spec fn report(target: TargetView) -> Option<Seq<Finding>> {
    match target {
        TargetView::Missing => None,
        TargetView::File(file) => Some(file_findings(file)),
        TargetView::Directory(files) => Some(
            files.map_values(|file: SourceFileView| file_findings(file)).flatten(),
        ),
    }
}

/// What an optional list of findings holds.
pub open spec fn optional_findings(todos: Option<Vec<Todo>>) -> Option<Seq<Finding>> {
    match todos {
        Some(t) => Some(findings(t@)),
        None => None,
    }
}

/// The scan of the first `n` lines holds exactly the findings of those
/// lines: each entry is the finding of the line whose number it carries, the
/// line numbers rise from entry to entry, and every line that has a finding
/// has an entry.
pub proof fn lemma_scan_first(path: Seq<char>, lines: Seq<Option<Seq<char>>>, n: nat)
    requires
        n <= lines.len(),
    ensures
        forall|k: int|
            0 <= k < scan_first(path, lines, n).len() ==> {
                let found = #[trigger] scan_first(path, lines, n)[k];
                found.line_number < n && line_finding(path, lines, found.line_number as int)
                    == Some(found)
            },
        forall|a: int, b: int|
            0 <= a < b < scan_first(path, lines, n).len() ==> (#[trigger] scan_first(
                path,
                lines,
                n,
            )[a]).line_number < (#[trigger] scan_first(path, lines, n)[b]).line_number,
        forall|i: int|
            0 <= i < n && line_finding(path, lines, i).is_some() ==> scan_first(
                path,
                lines,
                n,
            ).contains(#[trigger] line_finding(path, lines, i).unwrap()),
    decreases n,
{
    if n > 0 {
        let before = scan_first(path, lines, (n - 1) as nat);
        let now = scan_first(path, lines, n);
        lemma_scan_first(path, lines, (n - 1) as nat);
        match line_finding(path, lines, n - 1) {
            Some(finding) => {
                assert(now[before.len() as int] == finding);
                assert forall|i: int|
                    0 <= i < n && line_finding(path, lines, i).is_some() implies now.contains(
                    #[trigger] line_finding(path, lines, i).unwrap(),
                ) by {
                    if i < n - 1 {
                        let found = line_finding(path, lines, i).unwrap();
                        let k = choose|k: int| 0 <= k < before.len() && before[k] == found;
                        assert(now[k] == found);
                    }
                }
            },
            None => {},
        }
    }
}

/// Scans the lines of the file at `path` for markers.
pub fn find_todos(path: &str, lines: &Vec<Option<String>>) -> (result: Vec<NaiveTodo>)
    ensures
        raw_findings(result@) == scan(path@, line_texts(lines@)),
        forall|k: int| 0 <= k < result.len() ==> (#[trigger] result[k]).line_number < lines.len(),
        forall|a: int, b: int|
            0 <= a < b < result.len() ==> (#[trigger] result[a]).line_number
                < (#[trigger] result[b]).line_number,
{
    let mut todos: Vec<NaiveTodo> = Vec::new();
    let markers = search_items_combinations(
        TODO_SEARCH_TERMS.as_slice(),
        TODO_END_TERMS.as_slice(),
    );
    let ghost texts = line_texts(lines@);
    let mut line_number: usize = 0;
    while line_number < lines.len()
        invariant
            line_number <= lines.len(),
            texts == line_texts(lines@),
            string_texts(markers@) == search_terms(),
            raw_findings(todos@) == scan_first(path@, texts, line_number as nat),
            forall|k: int|
                0 <= k < todos.len() ==> (#[trigger] todos[k]).line_number < line_number,
        decreases lines.len() - line_number,
    {
        match &lines[line_number] {
            Some(line) => {
                match todo_matcher(path, line.as_str(), line_number, markers.as_slice()) {
                    Some(todo) => {
                        proof {
                            assert(raw_findings(todos@.push(todo)) =~= raw_findings(todos@).push(
                                todo@,
                            ));
                        }
                        todos.push(todo);
                    },
                    None => {},
                }
            },
            None => {},
        }
        line_number += 1;
    }
    proof {
        lemma_scan_first(path@, texts, lines.len() as nat);
        assert forall|a: int, b: int| 0 <= a < b < todos.len() implies
            (#[trigger] todos[a]).line_number < (#[trigger] todos[b]).line_number by {
            assert(raw_findings(todos@)[a] == todos[a]@);
            assert(raw_findings(todos@)[b] == todos[b]@);
        }
    }
    todos
}

/// Converts raw findings to findings without attribution.
pub fn naive_to_full(naives: &[NaiveTodo]) -> (result: Vec<Todo>)
    requires
        forall|k: int| 0 <= k < naives.len() ==> (#[trigger] naives[k]).line_number < usize::MAX,
    ensures
        findings(result@) == raw_findings(naives@).map_values(|t: RawFinding| unattributed(t)),
        result.len() == naives.len(),
        forall|k: int|
            0 <= k < result.len() ==> {
                let todo = #[trigger] result[k];
                todo.author@.len() == 0 && todo.email@.len() == 0 && todo.datetime@.len() == 0
            },
{
    let mut full: Vec<Todo> = Vec::new();
    let mut i: usize = 0;
    while i < naives.len()
        invariant
            i <= naives.len(),
            forall|k: int|
                0 <= k < naives.len() ==> (#[trigger] naives[k]).line_number < usize::MAX,
            full.len() == i,
            forall|k: int| 0 <= k < i ==> (#[trigger] full[k])@ == unattributed(naives[k]@),
        decreases naives.len() - i,
    {
        let nt = &naives[i];
        let todo = Todo {
            title: nt.value.clone(),
            author: String::new(),
            email: String::new(),
            datetime: String::new(),
            file: nt.file_path.clone(),
            line: nt.line_number + 1,
        };
        full.push(todo);
        i += 1;
    }
    proof {
        assert(findings(full@) =~= raw_findings(naives@).map_values(
            |t: RawFinding| unattributed(t),
        ));
    }
    full
}

/// Handles a single file: scans it, and attributes what was found where a
/// repository encloses the file.
pub fn handle_file(file: &SourceFile) -> (result: Vec<Todo>)
    ensures
        findings(result@) == file_findings(file@),
        file.history is None ==> forall|k: int|
            0 <= k < result.len() ==> {
                let todo = #[trigger] result[k];
                todo.author@.len() == 0 && todo.email@.len() == 0 && todo.datetime@.len() == 0
            },
        file@.history matches Some(history) && fully_known(
            history,
            scan(file@.path, file@.lines),
        ) ==> result.len() == scan(file@.path, file@.lines).len() && forall|k: int|
            0 <= k < result.len() ==> has_attribution((#[trigger] result[k])@),
{
    let todos = find_todos(file.path.as_str(), &file.lines);
    match &file.history {
        Some(history) => find_blame(history, &todos),
        None => naive_to_full(todos.as_slice()),
    }
}

/// Runs the scan on what was read from the path: on nothing where the path
/// does not exist, on the one file, or on the files of the directory in turn.
pub fn run(target: &Target) -> (result: Option<Vec<Todo>>)
    ensures
        optional_findings(result) == report(target@),
{
    match target {
        Target::Missing => None,
        Target::File(file) => Some(handle_file(file)),
        Target::Directory(files) => {
            let mut all_todos: Vec<Todo> = Vec::new();
            let ghost per_file = source_files(files@).map_values(
                |file: SourceFileView| file_findings(file),
            );
            let mut i: usize = 0;
            while i < files.len()
                invariant
                    i <= files.len(),
                    per_file == source_files(files@).map_values(
                        |file: SourceFileView| file_findings(file),
                    ),
                    findings(all_todos@) == per_file.take(i as int).flatten(),
                decreases files.len() - i,
            {
                let mut full_todos = handle_file(&files[i]);
                proof {
                    assert(per_file.take(i + 1) =~= per_file.take(i as int).push(
                        per_file[i as int],
                    ));
                    per_file.take(i as int).lemma_flatten_push(per_file[i as int]);
                    assert(findings(all_todos@ + full_todos@) =~= findings(all_todos@) + findings(
                        full_todos@,
                    ));
                }
                all_todos.append(&mut full_todos);
                i += 1;
            }
            proof {
                assert(per_file.take(files.len() as int) =~= per_file);
            }
            Some(all_todos)
        },
    }
}

/// A repository changes the attribution of a file's findings and nothing
/// else: where the repository does not ignore the file and every line with a
/// finding has an attribution, the findings without their attribution are
/// those of the same file outside any repository.
pub proof fn lemma_repository_keeps_matches(file: SourceFileView, history: FileHistoryView)
    requires
        file.history == Some(history),
        history.ignored == Some(false),
        forall|k: int|
            0 <= k < scan(file.path, file.lines).len() ==> line_attribution(
                history.blame,
                (#[trigger] scan(file.path, file.lines)[k]).line_number,
            ).is_some(),
    ensures
        file_findings(file).map_values(|f: Finding| without_attribution(f)) == file_findings(
            SourceFileView { history: None, ..file },
        ),
{
    lemma_attribution_keeps_findings(history, scan(file.path, file.lines));
}

} // verus!
