//! What a run is told: where to scan and where to write.

use vstd::prelude::*;
use crate::text::{chars_of, same_chars};

verus! {

/// The arguments of a run.
pub struct Cli {
    /// The path to the source code to scan.
    pub path: String,
    /// Where the findings are written: a file's path, or `-` for standard output.
    pub out: String,
}

/// The path that is scanned where none is given: the current directory.
pub open spec fn default_path() -> Seq<char> {
    "."@
}

/// The destination that stands for standard output.
pub open spec fn standard_output() -> Seq<char> {
    "-"@
}

impl Default for Cli {
    /// Scans the current directory and writes to standard output.
    fn default() -> (result: Cli)
        ensures
            result.path@ == default_path(),
            result.out@ == standard_output(),
    {
        Cli { path: ".".to_owned(), out: "-".to_owned() }
    }
}

impl Cli {
    /// Whether the findings go to standard output and not to a file.
    pub fn writes_to_stdout(&self) -> (result: bool)
        ensures
            result == (self.out@ == standard_output()),
    {
        let out = chars_of(self.out.as_str());
        let dash = chars_of("-");
        same_chars(&out, &dash)
    }
}

} // verus!
