use todozer::matcher::{get_todo_value, match_uppercased, todo_matcher};
use todozer::vocabulary::{
    search_items_combinations, CODE_COMMENTS, TODO_END_TERMS, TODO_SEARCH_TERMS,
};

fn dummy_path() -> &'static str {
    "dummy.rs"
}

fn markers() -> Vec<String> {
    search_items_combinations(&TODO_SEARCH_TERMS, &TODO_END_TERMS)
}

#[test]
fn matches_todo_in_comment() {
    let search_terms = search_items_combinations(&TODO_SEARCH_TERMS, &TODO_END_TERMS);
    let line = "// TODO: fix this function";
    let result = todo_matcher(dummy_path(), line, 5, &search_terms);
    assert!(result.is_some());
    let todo = result.unwrap();
    assert_eq!(todo.line_number, 5);
    assert_eq!(todo.value, "fix this function");
}

#[test]
fn matches_todo_without_two_colons() {
    let search_terms = search_items_combinations(&TODO_SEARCH_TERMS, &TODO_END_TERMS);
    let line = "// TODO Agregar toast de rror";
    let result = todo_matcher(dummy_path(), line, 8, &search_terms);
    assert!(result.is_some());
    let todo = result.unwrap();
    assert_eq!(todo.line_number, 8);
    // The text comes from this line and from no other.
    assert_ne!(todo.value, "fix this function");
    assert_eq!(todo.value, "Agregar toast de rror");
}

#[test]
fn matches_fixme_in_comment() {
    let search_terms = search_items_combinations(&TODO_SEARCH_TERMS, &TODO_END_TERMS);
    let line = "// FIXME: broken logic here";
    let result = todo_matcher(dummy_path(), line, 10, &search_terms);
    assert!(result.is_some());
    let todo = result.unwrap();
    assert_eq!(todo.line_number, 10);
    assert_eq!(todo.value, "broken logic here");
}

#[test]
fn ignores_lines_without_comment_prefix() {
    let search_terms = search_items_combinations(&TODO_SEARCH_TERMS, &TODO_END_TERMS);
    let line = "TODO: no comment marker";
    let result = todo_matcher(dummy_path(), line, 3, &search_terms);
    assert!(result.is_none());
}

#[test]
fn ignores_lines_without_search_term() {
    let search_terms = search_items_combinations(&TODO_SEARCH_TERMS, &TODO_END_TERMS);
    let line = "// WHAT: just a note, not a todo";
    let result = todo_matcher(dummy_path(), line, 7, &search_terms);
    assert!(result.is_none());
}

#[test]
fn combinations_are_keyword_by_keyword() {
    let all = markers();
    let expected = vec![
        "TODO:", "TODO->", "TODO ", "FIXME:", "FIXME->", "FIXME ", "HACK:", "HACK->", "HACK ",
        "NOTE:", "NOTE->", "NOTE ", "BUG:", "BUG->", "BUG ",
    ];
    assert_eq!(all, expected);
}

#[test]
fn combinations_of_nothing_are_empty() {
    let none: [&str; 0] = [];
    assert!(search_items_combinations(&none, &TODO_END_TERMS).is_empty());
    assert!(search_items_combinations(&TODO_SEARCH_TERMS, &none).is_empty());
    assert_eq!(search_items_combinations(&["A", "B"], &["1"]), vec!["A1", "B1"]);
}

#[test]
fn every_comment_token_opens_a_finding() {
    let terms = markers();
    for token in CODE_COMMENTS {
        let line = format!("{} TODO: tidy up", token);
        let todo = todo_matcher(dummy_path(), &line, 0, &terms).unwrap();
        assert_eq!(todo.value, "tidy up");
        assert_eq!(todo.file_path, "dummy.rs");
    }
}

#[test]
fn every_keyword_and_suffix_marks_a_finding() {
    let terms = markers();
    for keyword in TODO_SEARCH_TERMS {
        for suffix in TODO_END_TERMS {
            let line = format!("# {}{}rest", keyword, suffix);
            let todo = todo_matcher(dummy_path(), &line, 1, &terms).unwrap();
            assert_eq!(todo.value, "rest");
        }
    }
}

#[test]
fn leading_whitespace_before_the_comment_token_is_allowed() {
    let terms = markers();
    let todo = todo_matcher(dummy_path(), "\t    // TODO:   indent me  ", 2, &terms).unwrap();
    assert_eq!(todo.value, "indent me  ");
    let todo = todo_matcher(dummy_path(), "\u{a0}\u{3000}-- NOTE-> wide spaces", 2, &terms).unwrap();
    assert_eq!(todo.value, "wide spaces");
}

#[test]
fn marker_is_found_whatever_its_case() {
    let terms = markers();
    let line = "// todo: lower case";
    let todo = todo_matcher(dummy_path(), line, 4, &terms).unwrap();
    assert_eq!(todo.line_number, 4);
    // The marker is only taken away where it stands in upper case.
    assert_eq!(todo.value, line);
}

#[test]
fn marker_inside_a_longer_word_still_counts() {
    let terms = markers();
    let line = "// AUTODOC: generated";
    assert!(todo_matcher(dummy_path(), line, 0, &terms).is_none());
    let line = "// MYTODO: generated";
    let todo = todo_matcher(dummy_path(), line, 0, &terms).unwrap();
    assert_eq!(todo.value, line);
}

#[test]
fn keyword_without_suffix_is_no_marker() {
    let terms = markers();
    assert!(todo_matcher(dummy_path(), "// TODO", 0, &terms).is_none());
    assert!(todo_matcher(dummy_path(), "// TODO, later", 0, &terms).is_none());
    assert!(todo_matcher(dummy_path(), "", 0, &terms).is_none());
    assert!(todo_matcher(dummy_path(), "   ", 0, &terms).is_none());
}

#[test]
fn marker_away_from_the_comment_token_keeps_the_whole_line() {
    let terms = markers();
    let line = "// WHAT: todo later";
    let todo = todo_matcher(dummy_path(), line, 9, &terms).unwrap();
    assert_eq!(todo.value, "// WHAT: todo later");

    let line = "   /* see TODO: below */";
    let todo = todo_matcher(dummy_path(), line, 9, &terms).unwrap();
    assert_eq!(todo.value, "   /* see TODO: below */");
}

#[test]
fn first_marker_in_the_list_decides() {
    let terms = markers();
    // Both "TODO " and "FIXME:" stand in the line; "TODO " comes first in the list, and it
    // does not follow the comment token.
    let line = "// FIXME: and TODO later";
    let todo = todo_matcher(dummy_path(), line, 0, &terms).unwrap();
    assert_eq!(todo.value, line);
}

#[test]
fn first_comment_token_in_the_list_decides() {
    let terms = markers();
    // "--" is the token here: "<!--" and the others do not open the line.
    let todo = todo_matcher(dummy_path(), "--TODO: x", 0, &terms).unwrap();
    assert_eq!(todo.value, "x");
    // "//" is tried before "/*".
    let todo = todo_matcher(dummy_path(), "///* TODO: y", 0, &terms).unwrap();
    assert_eq!(todo.value, "///* TODO: y");
}

#[test]
fn match_uppercased_goes_by_the_upper_case_form_it_is_given() {
    let terms = markers();
    let found = match_uppercased(dummy_path(), "// todo: x", "// TODO: X", 3, &terms).unwrap();
    assert_eq!(found.line_number, 3);
    assert_eq!(found.value, "// todo: x");
    assert!(match_uppercased(dummy_path(), "// todo: x", "// todo: x", 3, &terms).is_none());
    assert!(match_uppercased(dummy_path(), "todo: x", "TODO: X", 3, &terms).is_none());
}

#[test]
fn get_todo_value_strips_one_token_and_one_marker() {
    assert_eq!(get_todo_value("// TODO: fix", "TODO:", "//"), "fix");
    assert_eq!(get_todo_value("  //   TODO:   fix  ", "TODO:", "//"), "fix  ");
    assert_eq!(get_todo_value("// TODO: // TODO: fix", "TODO:", "//"), "// TODO: fix");
    assert_eq!(get_todo_value("//TODO:", "TODO:", "//"), "");
    assert_eq!(get_todo_value("# BUG-> héllo wörld", "BUG->", "#"), "héllo wörld");
}

#[test]
fn get_todo_value_without_the_comment_token_starts_at_the_line() {
    // The line does not begin with the token: the marker is looked for at its start.
    assert_eq!(get_todo_value("  TODO: bare", "TODO:", "//"), "bare");
    assert_eq!(get_todo_value("x // TODO: bare", "TODO:", "//"), "x // TODO: bare");
}

#[test]
fn get_todo_value_falls_back_to_the_line_as_it_stands() {
    assert_eq!(get_todo_value("  // later TODO: fix", "TODO:", "//"), "  // later TODO: fix");
    assert_eq!(get_todo_value("// todo: fix", "TODO:", "//"), "// todo: fix");
    assert_eq!(get_todo_value("", "TODO:", "//"), "");
}

#[test]
fn extracting_again_changes_nothing() {
    let lines = [
        "// TODO: fix this function",
        "   # FIXME: broken   ",
        "// WHAT: todo later",
        "<!-- NOTE: markup -->",
        "plain text",
    ];
    for line in lines {
        for (term, comment) in [("TODO:", "//"), ("FIXME:", "#"), ("NOTE:", "<!--")] {
            let once = get_todo_value(line, term, comment);
            let twice = get_todo_value(&once, term, comment);
            assert_eq!(once, twice);
        }
    }
}

#[test]
fn extracting_again_takes_a_second_marker_away() {
    let once = get_todo_value("# TODO: TODO: twice", "TODO:", "#");
    assert_eq!(once, "TODO: twice");
    assert_eq!(get_todo_value(&once, "TODO:", "#"), "twice");
}

fn sample_lines() -> Vec<String> {
    let starts = ["", " ", "\t\t", "\u{a0} ", "x", "\u{200b}"];
    let tokens = ["//", "#", "/*", "'''", "<!--", "--", "/", "-", "''", ""];
    let gaps = ["", " ", "   ", "\t"];
    let markers = ["TODO:", "todo:", "FIXME->", "NOTE ", "BUG", "HACK:HACK:", "Todo ", "ſtodo:", ""];
    let ends = ["", "x", "  spaced  ", "// TODO: again", "é→"];
    let mut lines = Vec::new();
    for start in starts {
        for token in tokens {
            for gap in gaps {
                for marker in markers {
                    for end in ends {
                        lines.push(format!("{}{}{}{}{}{}", start, token, gap, marker, gap, end));
                    }
                }
            }
        }
    }
    lines
}

#[test]
fn get_todo_value_agrees_with_the_string_methods_of_std() {
    for line in sample_lines() {
        for term in ["TODO:", "FIXME->", "NOTE ", "HACK:", ""] {
            for comment in ["//", "#", "<!--", "--", ""] {
                let after_comment =
                    line.trim_start().strip_prefix(comment).unwrap_or(&line).trim_start();
                let expected = match after_comment.strip_prefix(term) {
                    Some(rest) => rest.trim_start().to_string(),
                    None => line.clone(),
                };
                assert_eq!(get_todo_value(&line, term, comment), expected, "line {:?}", line);
            }
        }
    }
}

#[test]
fn todo_matcher_agrees_with_the_string_methods_of_std() {
    let terms = markers();
    for line in sample_lines() {
        let upper = line.to_uppercase();
        let term = terms.iter().find(|term| upper.contains(term.as_str()));
        let comment = CODE_COMMENTS.iter().find(|token| line.trim_start().starts_with(*token));
        let found = todo_matcher(dummy_path(), &line, 17, &terms);
        match (term, comment) {
            (Some(term), Some(comment)) => {
                let todo = found.unwrap();
                assert_eq!(todo.line_number, 17);
                assert_eq!(todo.file_path, "dummy.rs");
                assert_eq!(todo.value, get_todo_value(&line, term, comment), "line {:?}", line);
            }
            _ => assert!(found.is_none(), "line {:?}", line),
        }
    }
}
