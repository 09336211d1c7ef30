//! The match of one line: a marker somewhere in it, a comment token at its
//! start, and the text that is taken from it.

use vstd::prelude::*;
use vstd::string::*;
use crate::finding::{NaiveTodo, RawFinding};
use crate::text::{
    chars_of, contains, contains_chars, lemma_leading_white_space, skip_white_space, starts_with,
    starts_with_at, trim_start, uppercase,
};
use crate::vocabulary::{comment_tokens, string_texts, CODE_COMMENTS};

verus! {

/// The first of `items` of which `holds` is true.
pub open spec fn first_where(items: Seq<Seq<char>>, holds: spec_fn(Seq<char>) -> bool) -> Option<
    Seq<char>,
>
    decreases items.len(),
{
    if items.len() == 0 {
        None
    } else if holds(items[0]) {
        Some(items[0])
    } else {
        first_where(items.drop_first(), holds)
    }
}

/// The first of `terms` that stands somewhere in `text`.
pub open spec fn first_contained(text: Seq<char>, terms: Seq<Seq<char>>) -> Option<Seq<char>> {
    first_where(terms, |term: Seq<char>| contains(text, term))
}

/// The first of `tokens` with which `text` begins.
pub open spec fn first_prefix(text: Seq<char>, tokens: Seq<Seq<char>>) -> Option<Seq<char>> {
    first_where(tokens, |token: Seq<char>| starts_with(text, token))
}

/// Whether one of `terms` stands in `upper`, the upper-case form of a line.
pub open spec fn has_marker(upper: Seq<char>, terms: Seq<Seq<char>>) -> bool {
    exists|i: int| 0 <= i < terms.len() && contains(upper, #[trigger] terms[i])
}

/// Whether the line, after its leading whitespace, begins with a comment token.
pub open spec fn has_comment(line: Seq<char>) -> bool {
    exists|i: int|
        0 <= i < comment_tokens().len() && starts_with(
            trim_start(line),
            #[trigger] comment_tokens()[i],
        )
}

/// What is left of the line once its whitespace, one comment token and the
/// whitespace behind it are gone. A line that does not begin with the token
/// loses its leading whitespace only.
pub open spec fn after_comment(line: Seq<char>, comment: Seq<char>) -> Seq<char> {
    let trimmed = trim_start(line);
    if starts_with(trimmed, comment) {
        trim_start(trimmed.skip(comment.len() as int))
    } else {
        trimmed
    }
}

/// Whether the marker stands right behind the comment token.
pub open spec fn marker_follows(line: Seq<char>, term: Seq<char>, comment: Seq<char>) -> bool {
    starts_with(after_comment(line, comment), term)
}

/// The text taken from a line: what follows the comment token and the marker,
/// without the whitespace around them; the whole line as it stands where the
/// marker does not follow the comment token.
pub open spec fn todo_value(line: Seq<char>, term: Seq<char>, comment: Seq<char>) -> Seq<char> {
    if marker_follows(line, term, comment) {
        trim_start(after_comment(line, comment).skip(term.len() as int))
    } else {
        line
    }
}

/// The finding of a line, if it has one: `upper`, the line's upper-case
/// form, must hold one of `terms`, and the line must begin with a comment
/// token; the first of each decides the text.
pub open spec fn match_line(
    file: Seq<char>,
    line: Seq<char>,
    upper: Seq<char>,
    line_number: nat,
    terms: Seq<Seq<char>>,
) -> Option<RawFinding> {
    match (first_contained(upper, terms), first_prefix(trim_start(line), comment_tokens())) {
        (Some(term), Some(comment)) => Some(
            RawFinding {
                line_number,
                file_path: file,
                extracted_text: todo_value(line, term, comment),
            },
        ),
        _ => None,
    }
}

/// What an optional raw finding holds.
pub open spec fn raw_finding(todo: Option<NaiveTodo>) -> Option<RawFinding> {
    match todo {
        Some(t) => Some(t@),
        None => None,
    }
}

/// There is a first item of which `holds` is true exactly when it is true of
/// some item; it is true of that first item, which is one of the items.
pub proof fn lemma_first_where(items: Seq<Seq<char>>, holds: spec_fn(Seq<char>) -> bool)
    ensures
        first_where(items, holds).is_some() <==> exists|i: int|
            0 <= i < items.len() && holds(#[trigger] items[i]),
        first_where(items, holds) matches Some(item) ==> holds(item) && items.contains(item),
    decreases items.len(),
{
    if items.len() > 0 {
        let rest = items.drop_first();
        lemma_first_where(rest, holds);
        if !holds(items[0]) && first_where(rest, holds).is_none() {
            assert forall|i: int| 0 <= i < items.len() implies !holds(#[trigger] items[i]) by {
                if i > 0 {
                    assert(items[i] == rest[i - 1]);
                }
            }
        }
    }
}

/// The place in `terms` of the first term that stands somewhere in `text`.
fn find_contained(text: &Vec<char>, terms: &[String]) -> (result: Option<usize>)
    ensures
        match result {
            Some(i) => i < terms.len() && first_contained(text@, string_texts(terms@)) == Some(
                terms[i as int]@,
            ),
            None => first_contained(text@, string_texts(terms@)).is_none(),
        },
{
    let ghost all = string_texts(terms@);
    let mut i: usize = 0;
    assert(all.skip(0) =~= all);
    while i < terms.len()
        invariant
            i <= terms.len(),
            all == string_texts(terms@),
            first_contained(text@, all) == first_contained(text@, all.skip(i as int)),
        decreases terms.len() - i,
    {
        let term = chars_of(terms[i].as_str());
        proof {
            assert(all.skip(i as int).drop_first() =~= all.skip(i + 1));
        }
        if contains_chars(text, &term) {
            return Some(i);
        }
        i += 1;
    }
    None
}

/// The place in the comment tokens of the first with which the text from
/// `from` on begins.
fn find_comment(chars: &Vec<char>, from: usize) -> (result: Option<usize>)
    requires
        from <= chars.len(),
    ensures
        match result {
            Some(i) => i < CODE_COMMENTS@.len() && first_prefix(
                chars@.skip(from as int),
                comment_tokens(),
            ) == Some(CODE_COMMENTS@[i as int]@),
            None => first_prefix(chars@.skip(from as int), comment_tokens()).is_none(),
        },
{
    let ghost all = comment_tokens();
    let ghost text = chars@.skip(from as int);
    let mut i: usize = 0;
    assert(all.skip(0) =~= all);
    while i < CODE_COMMENTS.len()
        invariant
            i <= CODE_COMMENTS@.len(),
            from <= chars.len(),
            all == comment_tokens(),
            text == chars@.skip(from as int),
            first_prefix(text, all) == first_prefix(text, all.skip(i as int)),
        decreases CODE_COMMENTS@.len() - i,
    {
        let token = chars_of(CODE_COMMENTS[i]);
        proof {
            assert(all.skip(i as int).drop_first() =~= all.skip(i + 1));
        }
        if starts_with_at(chars, from, &token) {
            return Some(i);
        }
        i += 1;
    }
    None
}

/// The text that a finding takes from `line`, for the marker `term` and the
/// comment token `comment`.
pub fn get_todo_value(line: &str, term: &str, comment: &str) -> (result: String)
    ensures
        result@ == todo_value(line@, term@, comment@),
        !marker_follows(line@, term@, comment@) ==> result@ == line@,
{
    let chars = chars_of(line);
    let term_chars = chars_of(term);
    let comment_chars = chars_of(comment);
    let start = skip_white_space(&chars, 0);
    assert(chars@.skip(0) =~= chars@);
    let rest: usize = if starts_with_at(&chars, start, &comment_chars) {
        assert(chars@.skip(start as int).skip(comment_chars.len() as int) =~= chars@.skip(
            start + comment_chars.len(),
        ));
        skip_white_space(&chars, start + comment_chars.len())
    } else {
        start
    };
    if starts_with_at(&chars, rest, &term_chars) {
        assert(chars@.skip(rest as int).skip(term_chars.len() as int) =~= chars@.skip(
            rest + term_chars.len(),
        ));
        let from = skip_white_space(&chars, rest + term_chars.len());
        line.substring_char(from, chars.len()).to_owned()
    } else {
        line.to_owned()
    }
}

/// The finding of `line`, whose upper-case form is `upper`, if it has one.
pub fn match_uppercased(
    file: &str,
    line: &str,
    upper: &str,
    line_number: usize,
    search_terms: &[String],
) -> (result: Option<NaiveTodo>)
    ensures
        raw_finding(result) == match_line(
            file@,
            line@,
            upper@,
            line_number as nat,
            string_texts(search_terms@),
        ),
        result.is_some() <==> has_marker(upper@, string_texts(search_terms@)) && has_comment(
            line@,
        ),
        result matches Some(todo) ==> todo.line_number == line_number && todo.file_path@ == file@,
        result matches Some(todo) ==> {
            let term = first_contained(upper@, string_texts(search_terms@)).unwrap();
            let comment = first_prefix(trim_start(line@), comment_tokens()).unwrap();
            !marker_follows(line@, term, comment) ==> todo.value@ == line@
        },
{
    let upper_chars = chars_of(upper);
    let found_term = find_contained(&upper_chars, search_terms);
    let chars = chars_of(line);
    let start = skip_white_space(&chars, 0);
    let comment_string = find_comment(&chars, start);
    proof {
        assert(chars@.skip(0) =~= chars@);
        lemma_first_where(
            string_texts(search_terms@),
            |term: Seq<char>| contains(upper@, term),
        );
        lemma_first_where(comment_tokens(), |token: Seq<char>| starts_with(trim_start(line@), token));
    }
    match (found_term, comment_string) {
        (Some(i), Some(j)) => {
            let value = get_todo_value(line, search_terms[i].as_str(), CODE_COMMENTS[j]);
            Some(NaiveTodo { line_number, value, file_path: file.to_owned() })
        },
        _ => None,
    }
}

/// The finding of `line`, if it has one: the line must hold one of
/// `search_terms`, whatever the case of its letters, and begin with a comment
/// token.
pub fn todo_matcher(
    file: &str,
    line: &str,
    line_number: usize,
    search_terms: &[String],
) -> (result: Option<NaiveTodo>)
    ensures
        raw_finding(result) == match_line(
            file@,
            line@,
            uppercase(line@),
            line_number as nat,
            string_texts(search_terms@),
        ),
        result.is_some() <==> has_marker(uppercase(line@), string_texts(search_terms@))
            && has_comment(line@),
        result matches Some(todo) ==> todo.line_number == line_number && todo.file_path@ == file@,
        result matches Some(todo) ==> {
            let term = first_contained(uppercase(line@), string_texts(search_terms@)).unwrap();
            let comment = first_prefix(trim_start(line@), comment_tokens()).unwrap();
            !marker_follows(line@, term, comment) ==> todo.value@ == line@
        },
{
    let upper = line.to_uppercase();
    match_uppercased(file, line, upper.as_str(), line_number, search_terms)
}

/// Extracting once more from a text changes nothing where no marker follows
/// the comment token in it. Where a marker of at least one character does
/// follow, extracting once more takes it away and leaves a shorter text.
pub proof fn lemma_extraction_idempotent(line: Seq<char>, term: Seq<char>, comment: Seq<char>)
    ensures
        ({
            let text = todo_value(line, term, comment);
            &&& !marker_follows(text, term, comment) ==> todo_value(text, term, comment) == text
            &&& marker_follows(text, term, comment) && term.len() > 0 ==> todo_value(
                text,
                term,
                comment,
            ).len() < text.len()
        }),
{
    let text = todo_value(line, term, comment);
    if marker_follows(text, term, comment) && term.len() > 0 {
        let trimmed = trim_start(text);
        let rest = after_comment(text, comment);
        lemma_leading_white_space(text);
        if starts_with(trimmed, comment) {
            lemma_leading_white_space(trimmed.skip(comment.len() as int));
        }
        lemma_leading_white_space(rest.skip(term.len() as int));
    }
}

} // verus!
