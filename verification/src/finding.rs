//! What a scan finds: the raw finding of one line, and the finding that is
//! reported, with or without attribution.

use vstd::prelude::*;

verus! {

/// A marker found on one line, before attribution.
pub struct NaiveTodo {
    /// The line's position in its file, counted from 0.
    pub line_number: usize,
    pub file_path: String,
    /// The text taken from the line.
    pub value: String,
}

/// A reported marker. Without attribution `author`, `email` and `datetime`
/// are empty.
#[derive(Debug)]
pub struct Todo {
    pub title: String,
    pub author: String,
    pub email: String,
    pub datetime: String,
    pub file: String,
    /// The line's position in its file, counted from 1.
    pub line: usize,
}

/// What a `NaiveTodo` holds.
pub struct RawFinding {
    pub line_number: nat,
    pub file_path: Seq<char>,
    pub extracted_text: Seq<char>,
}

/// What a `Todo` holds.
pub struct Finding {
    pub title: Seq<char>,
    pub author: Seq<char>,
    pub email: Seq<char>,
    pub timestamp: Seq<char>,
    pub file_path: Seq<char>,
    pub line_number: nat,
}

impl View for NaiveTodo {
    type V = RawFinding;

    open spec fn view(&self) -> RawFinding {
        RawFinding {
            line_number: self.line_number as nat,
            file_path: self.file_path@,
            extracted_text: self.value@,
        }
    }
}

impl View for Todo {
    type V = Finding;

    open spec fn view(&self) -> Finding {
        Finding {
            title: self.title@,
            author: self.author@,
            email: self.email@,
            timestamp: self.datetime@,
            file_path: self.file@,
            line_number: self.line as nat,
        }
    }
}

/// What a list of raw findings holds.
pub open spec fn raw_findings(todos: Seq<NaiveTodo>) -> Seq<RawFinding> {
    todos.map_values(|t: NaiveTodo| t@)
}

/// What a list of findings holds.
pub open spec fn findings(todos: Seq<Todo>) -> Seq<Finding> {
    todos.map_values(|t: Todo| t@)
}

/// The finding that is reported for a raw finding when nothing is known of
/// the line's history: the line counted from 1, the attribution empty.
pub open spec fn unattributed(raw: RawFinding) -> Finding {
    Finding {
        title: raw.extracted_text,
        author: Seq::empty(),
        email: Seq::empty(),
        timestamp: Seq::empty(),
        file_path: raw.file_path,
        line_number: raw.line_number + 1,
    }
}

/// A finding with its attribution taken away.
pub open spec fn without_attribution(finding: Finding) -> Finding {
    Finding { author: Seq::empty(), email: Seq::empty(), timestamp: Seq::empty(), ..finding }
}

} // verus!
