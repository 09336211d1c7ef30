//! The fixed vocabulary of the scan: marker keywords, the suffixes that end a
//! marker, comment tokens and file extensions.

use vstd::prelude::*;
use vstd::string::*;
use vstd::arithmetic::div_mod::lemma_fundamental_div_mod_converse;

verus! {

/// The keywords that mark an annotation.
pub const TODO_SEARCH_TERMS: [&'static str; 5] = ["TODO", "FIXME", "HACK", "NOTE", "BUG"];

/// What may follow a keyword to make it a marker.
pub const TODO_END_TERMS: [&'static str; 3] = [":", "->", " "];

/// The tokens that open a comment.
pub const CODE_COMMENTS: [&'static str; 6] = ["//", "#", "/*", "'''", "<!--", "--"];

/// The extensions of the files that are scanned.
pub const ALLOWED_EXTENSIONS: [&'static str; 23] = [
    "rs", "js", "ts", "go", "java", "py", "rb", "sh", "c", "cpp", "html", "xml", "lua", "sql",
    "tsx", "jsx", "css", "scss", "less", "json", "yaml", "yml", "toml",
];

/// The texts of a list of string slices.
pub open spec fn texts(items: Seq<&str>) -> Seq<Seq<char>> {
    items.map_values(|s: &str| s@)
}

/// The texts of a list of strings.
pub open spec fn string_texts(items: Seq<String>) -> Seq<Seq<char>> {
    items.map_values(|s: String| s@)
}

/// Every keyword followed by every suffix: keyword by keyword, and for each
/// keyword suffix by suffix.
pub open spec fn combinations(terms: Seq<Seq<char>>, ends: Seq<Seq<char>>) -> Seq<Seq<char>> {
    Seq::new(
        terms.len() * ends.len(),
        |k: int| terms[k / ends.len() as int] + ends[k % ends.len() as int],
    )
}

/// The markers that a scan looks for.
pub open spec fn search_terms() -> Seq<Seq<char>> {
    combinations(texts(TODO_SEARCH_TERMS@), texts(TODO_END_TERMS@))
}

/// The comment tokens as texts.
pub open spec fn comment_tokens() -> Seq<Seq<char>> {
    texts(CODE_COMMENTS@)
}

/// The allowed extensions as texts.
pub open spec fn allowed_extensions() -> Seq<Seq<char>> {
    texts(ALLOWED_EXTENSIONS@)
}

/// Every search term followed by every end term, as strings of their own.
pub fn search_items_combinations(search_terms: &[&str], end_terms: &[&str]) -> (result: Vec<String>)
    ensures
        string_texts(result@) == combinations(texts(search_terms@), texts(end_terms@)),
        result.len() == search_terms.len() * end_terms.len(),
{
    let ghost all = combinations(texts(search_terms@), texts(end_terms@));
    let ghost width = end_terms.len() as int;
    let mut out: Vec<String> = Vec::new();
    let mut i: usize = 0;
    while i < search_terms.len()
        invariant
            i <= search_terms.len(),
            width == end_terms.len(),
            all == combinations(texts(search_terms@), texts(end_terms@)),
            out.len() == i * width,
            string_texts(out@) == all.take(i * width),
        decreases search_terms.len() - i,
    {
        let mut j: usize = 0;
        while j < end_terms.len()
            invariant
                i < search_terms.len(),
                j <= end_terms.len(),
                width == end_terms.len(),
                all == combinations(texts(search_terms@), texts(end_terms@)),
                out.len() == i * width + j,
                string_texts(out@) == all.take(i * width + j),
            decreases end_terms.len() - j,
        {
            let joined = String::from_str(search_terms[i]).concat(end_terms[j]);
            proof {
                let k = i * width + j;
                lemma_fundamental_div_mod_converse(k, width, i as int, j as int);
                assert(k < search_terms.len() * width) by (nonlinear_arith)
                    requires
                        k == i * width + j,
                        0 <= j < width,
                        0 <= i < search_terms.len(),
                ;
            }
            out.push(joined);
            j += 1;
        }
        proof {
            assert(i * width + width == (i + 1) * width) by (nonlinear_arith);
        }
        i += 1;
    }
    out
}

} // verus!
