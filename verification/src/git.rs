//! Attribution: who last changed a line and when, read from a file's history
//! as plain values, and the findings that come of it.

use vstd::prelude::*;
use chrono::DateTime;
use std::path::Path;
use crate::text::optional_text;
use crate::finding::{
    findings, raw_findings, unattributed, without_attribution, Finding, NaiveTodo, RawFinding,
    Todo,
};

verus! {

/// The author of a line's last change and the time of that change.
pub struct Signature {
    /// The author's name, where the history holds a readable one.
    pub name: Option<String>,
    /// The author's email, where the history holds a readable one.
    pub email: Option<String>,
    /// The time of the change, in seconds since the Unix epoch.
    pub seconds: i64,
}

/// What is known of a file's lines.
pub enum Blame {
    /// The file has no history that could be read.
    Unavailable,
    /// One entry for each line, the first line first; `None` for a line
    /// whose last change could not be found.
    Lines(Vec<Option<Signature>>),
}

/// What a repository knows of one file.
pub struct FileHistory {
    /// Whether the repository's ignore rules exclude the file; `None` where
    /// the repository could not tell.
    pub ignored: Option<bool>,
    pub blame: Blame,
}

/// The attribution of one line.
pub struct BlameData {
    pub author: String,
    pub email: String,
    pub time: String,
}

/// One directory on the way from a path up to the root of the file system.
pub struct Ancestor {
    pub path: String,
    /// Whether the directory holds a repository's metadata.
    pub has_repository: bool,
}

/// What a `Signature` holds.
pub struct SignatureView {
    pub name: Option<Seq<char>>,
    pub email: Option<Seq<char>>,
    pub seconds: i64,
}

/// What a `Blame` holds.
pub enum BlameView {
    Unavailable,
    Lines(Seq<Option<SignatureView>>),
}

/// What a `FileHistory` holds.
pub struct FileHistoryView {
    pub ignored: Option<bool>,
    pub blame: BlameView,
}

/// What a `BlameData` holds.
pub struct Attribution {
    pub author: Seq<char>,
    pub email: Seq<char>,
    pub time: Seq<char>,
}

impl View for Signature {
    type V = SignatureView;

    open spec fn view(&self) -> SignatureView {
        SignatureView {
            name: optional_text(self.name),
            email: optional_text(self.email),
            seconds: self.seconds,
        }
    }
}

/// What an optional signature holds.
pub open spec fn optional_signature(s: Option<Signature>) -> Option<SignatureView> {
    match s {
        Some(s) => Some(s@),
        None => None,
    }
}

impl View for Blame {
    type V = BlameView;

    open spec fn view(&self) -> BlameView {
        match self {
            Blame::Unavailable => BlameView::Unavailable,
            Blame::Lines(lines) => BlameView::Lines(
                lines@.map_values(|s: Option<Signature>| optional_signature(s)),
            ),
        }
    }
}

impl View for FileHistory {
    type V = FileHistoryView;

    open spec fn view(&self) -> FileHistoryView {
        FileHistoryView { ignored: self.ignored, blame: self.blame@ }
    }
}

impl View for BlameData {
    type V = Attribution;

    open spec fn view(&self) -> Attribution {
        Attribution { author: self.author@, email: self.email@, time: self.time@ }
    }
}

/// What an optional attribution holds.
pub open spec fn optional_attribution(data: Option<BlameData>) -> Option<Attribution> {
    match data {
        Some(d) => Some(d@),
        None => None,
    }
}

/// The moment `seconds` after the Unix epoch, in UTC, written as chrono
/// writes an RFC 3339 date and time; `None` where chrono has no date for it.
pub uninterp spec fn rfc3339_utc(seconds: i64) -> Option<Seq<char>>;

/// `DateTime::from_timestamp` of chrono, with no nanoseconds, and
/// `DateTime::to_rfc3339` on the moment it gives. Whether there is a moment,
/// and the text written for it, are what `rfc3339_utc` stands for; the text
/// always holds the separators of date and time, so it is never empty.
#[verifier::external_body]
fn format_timestamp(seconds: i64) -> (result: Option<String>)
    ensures
        optional_text(result) == rfc3339_utc(seconds),
        result matches Some(text) ==> text@.len() > 0,
{
    match DateTime::from_timestamp(seconds, 0) {
        Some(moment) => Some(moment.to_rfc3339()),
        None => None,
    }
}

/// The name that stands for an author or an email that the history does not give.
pub open spec fn placeholder() -> Seq<char> {
    "Unknown"@
}

/// The text, or the placeholder where there is none.
pub open spec fn or_placeholder(text: Option<Seq<char>>) -> Seq<char> {
    match text {
        Some(t) => t,
        None => placeholder(),
    }
}

/// The attribution that a signature gives; none where its time cannot be written.
pub open spec fn signature_attribution(signature: SignatureView) -> Option<Attribution> {
    match rfc3339_utc(signature.seconds) {
        Some(time) => Some(
            Attribution {
                author: or_placeholder(signature.name),
                email: or_placeholder(signature.email),
                time,
            },
        ),
        None => None,
    }
}

/// The attribution with nothing in it.
pub open spec fn empty_attribution() -> Attribution {
    Attribution { author: Seq::empty(), email: Seq::empty(), time: Seq::empty() }
}

/// The attribution of the line at `line_number`, counted from 0. A file
/// without readable history gives the empty attribution for every line; a
/// line that the history does not cover, or whose last change was not found
/// or has a time that cannot be written, gives none.
pub open spec fn line_attribution(blame: BlameView, line_number: nat) -> Option<Attribution> {
    match blame {
        BlameView::Unavailable => Some(empty_attribution()),
        BlameView::Lines(lines) => if line_number < lines.len() {
            match lines[line_number as int] {
                Some(signature) => signature_attribution(signature),
                None => None,
            }
        } else {
            None
        },
    }
}

/// The finding that is reported for a raw finding and its attribution.
pub open spec fn attributed(raw: RawFinding, attribution: Attribution) -> Finding {
    Finding {
        title: raw.extracted_text,
        author: attribution.author,
        email: attribution.email,
        timestamp: attribution.time,
        file_path: raw.file_path,
        line_number: raw.line_number + 1,
    }
}

/// The placeholder is a text of seven characters.
pub proof fn lemma_placeholder_not_empty()
    ensures
        placeholder().len() == 7,
{
    reveal_strlit("Unknown");
}

/// The string, or the placeholder where there is none.
fn text_or_placeholder(text: &Option<String>) -> (result: String)
    ensures
        result@ == or_placeholder(optional_text(*text)),
{
    match text {
        Some(t) => t.clone(),
        None => "Unknown".to_owned(),
    }
}

/// The attribution of a line from its signature and the written form of the
/// signature's time.
pub fn blame_data(signature: &Signature, time: String) -> (result: BlameData)
    ensures
        result@ == (Attribution {
            author: or_placeholder(signature@.name),
            email: or_placeholder(signature@.email),
            time: time@,
        }),
{
    let author = text_or_placeholder(&signature.name);
    let email = text_or_placeholder(&signature.email);
    BlameData { author, email, time }
}

/// Looks up who last changed the line at `line_number`, counted from 0, and
/// when.
pub fn line_blame(blame: &Blame, line_number: usize) -> (result: Option<BlameData>)
    ensures
        optional_attribution(result) == line_attribution(blame@, line_number as nat),
        result matches Some(data) ==> (blame is Lines ==> data.time@.len() > 0),
{
    match blame {
        Blame::Unavailable => Some(
            BlameData { author: String::new(), email: String::new(), time: String::new() },
        ),
        Blame::Lines(lines) => {
            if line_number >= lines.len() {
                return None;
            }
            match &lines[line_number] {
                Some(signature) => {
                    match format_timestamp(signature.seconds) {
                        Some(time) => Some(blame_data(signature, time)),
                        None => None,
                    }
                },
                None => None,
            }
        },
    }
}

/// The findings of the first `n` raw findings: one for each whose line has
/// an attribution, in the order of the raw findings.
pub open spec fn attribute_first(blame: BlameView, todos: Seq<RawFinding>, n: nat) -> Seq<Finding>
    decreases n,
{
    if n == 0 {
        Seq::empty()
    } else {
        let before = attribute_first(blame, todos, (n - 1) as nat);
        match line_attribution(blame, todos[n - 1].line_number) {
            Some(attribution) => before.push(attributed(todos[n - 1], attribution)),
            None => before,
        }
    }
}

/// The findings that a repository gives for a file's raw findings: none
/// unless the repository says that the file is not ignored; else one for
/// each raw finding whose line has an attribution.
pub open spec fn blame_findings(history: FileHistoryView, todos: Seq<RawFinding>) -> Seq<Finding> {
    if history.ignored == Some(false) {
        attribute_first(history.blame, todos, todos.len())
    } else {
        Seq::empty()
    }
}

/// Whether the history names, for the line at `line_number`, a last change
/// with a time that can be written and with no empty name or email.
pub open spec fn known_line(lines: Seq<Option<SignatureView>>, line_number: nat) -> bool {
    &&& line_number < lines.len()
    &&& lines[line_number as int] matches Some(signature)
    &&& rfc3339_utc(signature.seconds).is_some()
    &&& (signature.name matches Some(name) ==> name.len() > 0)
    &&& (signature.email matches Some(email) ==> email.len() > 0)
}

/// Whether the repository does not ignore the file and the history knows the
/// line of every raw finding.
pub open spec fn fully_known(history: FileHistoryView, todos: Seq<RawFinding>) -> bool {
    &&& history.ignored == Some(false)
    &&& history.blame matches BlameView::Lines(lines)
    &&& forall|k: int| 0 <= k < todos.len() ==> known_line(lines, (#[trigger] todos[k]).line_number)
}

/// Whether a finding names an author, an email and a time.
pub open spec fn has_attribution(finding: Finding) -> bool {
    finding.author.len() > 0 && finding.email.len() > 0 && finding.timestamp.len() > 0
}

impl FileHistory {
    /// Whether the repository leaves the file out: its ignore rules exclude
    /// the file, or it could not tell.
    pub fn excludes_file(&self) -> (result: bool)
        ensures
            result == (self.ignored != Some(false)),
    {
        match self.ignored {
            Some(ignored) => ignored,
            None => true,
        }
    }
}

/// Turns the raw findings of one file into findings, with what the
/// repository knows of the file's lines.
pub fn find_blame(history: &FileHistory, todos: &Vec<NaiveTodo>) -> (result: Vec<Todo>)
    requires
        forall|k: int| 0 <= k < todos.len() ==> (#[trigger] todos[k]).line_number < usize::MAX,
    ensures
        findings(result@) == blame_findings(history@, raw_findings(todos@)),
        fully_known(history@, raw_findings(todos@)) ==> result.len() == todos.len() && forall|
            k: int,
        | 0 <= k < result.len() ==> has_attribution((#[trigger] result[k])@),
{
    let mut full_todos: Vec<Todo> = Vec::new();
    if history.excludes_file() {
        return full_todos;
    }
    let ghost raws = raw_findings(todos@);
    let ghost known = fully_known(history@, raws);
    let mut i: usize = 0;
    while i < todos.len()
        invariant
            i <= todos.len(),
            raws == raw_findings(todos@),
            known == fully_known(history@, raws),
            forall|k: int| 0 <= k < todos.len() ==> (#[trigger] todos[k]).line_number < usize::MAX,
            findings(full_todos@) == attribute_first(history@.blame, raws, i as nat),
            known ==> full_todos.len() == i && forall|k: int|
                0 <= k < full_todos.len() ==> has_attribution((#[trigger] full_todos[k])@),
        decreases todos.len() - i,
    {
        let t = &todos[i];
        match line_blame(&history.blame, t.line_number) {
            Some(blame) => {
                let todo = Todo {
                    title: t.value.clone(),
                    author: blame.author,
                    email: blame.email,
                    datetime: blame.time,
                    file: t.file_path.clone(),
                    line: t.line_number + 1,
                };
                proof {
                    lemma_placeholder_not_empty();
                }
                full_todos.push(todo);
            },
            None => {},
        }
        i += 1;
    }
    full_todos
}

/// Attribution adds to the findings and takes none away: where the
/// repository does not ignore the file and every raw finding's line has an
/// attribution, the findings without their attribution are the findings that
/// are reported when nothing is known of the file's history.
pub proof fn lemma_attribution_keeps_findings(history: FileHistoryView, todos: Seq<RawFinding>)
    requires
        history.ignored == Some(false),
        forall|k: int|
            0 <= k < todos.len() ==> line_attribution(
                history.blame,
                (#[trigger] todos[k]).line_number,
            ).is_some(),
    ensures
        blame_findings(history, todos).map_values(|f: Finding| without_attribution(f))
            == todos.map_values(|t: RawFinding| unattributed(t)),
{
    lemma_attribute_first(history.blame, todos, todos.len());
}

/// Where the lines of the first `n` raw findings all have an attribution,
/// each of them gives one finding, in its place.
proof fn lemma_attribute_first(blame: BlameView, todos: Seq<RawFinding>, n: nat)
    requires
        n <= todos.len(),
        forall|k: int|
            0 <= k < n ==> line_attribution(blame, (#[trigger] todos[k]).line_number).is_some(),
    ensures
        attribute_first(blame, todos, n).len() == n,
        forall|k: int|
            0 <= k < n ==> #[trigger] attribute_first(blame, todos, n)[k] == attributed(
                todos[k],
                line_attribution(blame, todos[k].line_number).unwrap(),
            ),
    decreases n,
{
    if n > 0 {
        lemma_attribute_first(blame, todos, (n - 1) as nat);
    }
}

/// What `Path::strip_prefix` of std gives for the path `file` and the base
/// `base`, both taken as text: what is left of `file`, or `None` where `base`
/// is no prefix of it.
pub uninterp spec fn path_without_prefix(file: Seq<char>, base: Seq<char>) -> Option<Seq<char>>;

/// `Path::strip_prefix` of std, on paths given as text. Whether `base` is a
/// prefix of `file`, and what is left of `file` behind it, are what
/// `path_without_prefix` stands for.
#[verifier::external_body]
fn strip_path_prefix(file: &str, base: &str) -> (result: Option<String>)
    ensures
        optional_text(result) == path_without_prefix(file@, base@),
{
    match Path::new(file).strip_prefix(base) {
        Ok(rest) => match rest.to_str() {
            Some(text) => Some(text.to_owned()),
            None => None,
        },
        Err(_) => None,
    }
}

/// What is left of a path behind the root of its repository; the path as
/// it stands where the root is no prefix of it and nothing is left.
pub fn rest_or_whole(file: &str, rest: Option<String>) -> (result: String)
    ensures
        result@ == match rest {
            Some(rest) => rest@,
            None => file@,
        },
{
    match rest {
        Some(rest) => rest,
        None => file.to_owned(),
    }
}

/// The path of `file` as seen from the repository at `repo`; `file` as it
/// stands where it does not lie under `repo`. Both are taken in their
/// absolute form.
pub fn relative_path(repo: &str, file: &str) -> (result: String)
    ensures
        result@ == match path_without_prefix(file@, repo@) {
            Some(rest) => rest,
            None => file@,
        },
{
    rest_or_whole(file, strip_path_prefix(file, repo))
}

/// Whether the directory at `i` is the nearest one that holds a repository.
pub open spec fn is_nearest_repository(ancestors: Seq<Ancestor>, i: int) -> bool {
    &&& 0 <= i < ancestors.len()
    &&& ancestors[i].has_repository
    &&& forall|j: int| 0 <= j < i ==> !(#[trigger] ancestors[j]).has_repository
}

/// The root of the nearest repository that encloses a path. `ancestors`
/// holds the path's directories from the innermost up.
pub fn find_git_repo(ancestors: &Vec<Ancestor>) -> (result: Option<String>)
    ensures
        match result {
            Some(root) => exists|i: int|
                is_nearest_repository(ancestors@, i) && root@ == ancestors[i].path@,
            None => forall|i: int|
                0 <= i < ancestors.len() ==> !(#[trigger] ancestors[i]).has_repository,
        },
{
    let mut i: usize = 0;
    while i < ancestors.len()
        invariant
            i <= ancestors.len(),
            forall|j: int| 0 <= j < i ==> !(#[trigger] ancestors[j]).has_repository,
        decreases ancestors.len() - i,
    {
        if ancestors[i].has_repository {
            assert(is_nearest_repository(ancestors@, i as int));
            return Some(ancestors[i].path.clone());
        }
        i += 1;
    }
    None
}

} // verus!
