use todozer::text::{chars_of, contains_chars, same_chars, skip_white_space, starts_with_at};

fn chars(text: &str) -> Vec<char> {
    text.chars().collect()
}

#[test]
fn chars_of_gives_each_character_once() {
    assert_eq!(chars_of(""), Vec::<char>::new());
    assert_eq!(chars_of("a b"), vec!['a', ' ', 'b']);
    assert_eq!(chars_of("né→x"), vec!['n', 'é', '→', 'x']);
}

#[test]
fn skip_white_space_stops_at_the_first_other_character() {
    let text = chars(" \t\n x  y");
    assert_eq!(skip_white_space(&text, 0), 4);
    assert_eq!(skip_white_space(&text, 2), 4);
    assert_eq!(skip_white_space(&text, 4), 4);
    assert_eq!(skip_white_space(&text, 5), 7);
    assert_eq!(skip_white_space(&text, 8), 8);
    assert_eq!(skip_white_space(&chars("   "), 0), 3);
    assert_eq!(skip_white_space(&chars(""), 0), 0);
    assert_eq!(skip_white_space(&chars("\u{2003}\u{85}z"), 0), 2);
    // A zero-width space is no whitespace.
    assert_eq!(skip_white_space(&chars("\u{200b}z"), 0), 0);
}

#[test]
fn starts_with_at_compares_from_the_given_place() {
    let text = chars("ab<!--cd");
    assert!(starts_with_at(&text, 2, &chars("<!--")));
    assert!(!starts_with_at(&text, 1, &chars("<!--")));
    assert!(starts_with_at(&text, 0, &chars("")));
    assert!(starts_with_at(&text, 8, &chars("")));
    assert!(!starts_with_at(&text, 6, &chars("cde")));
    assert!(starts_with_at(&text, 6, &chars("cd")));
    assert!(!starts_with_at(&chars(""), 0, &chars("x")));
}

#[test]
fn contains_chars_finds_a_part_anywhere() {
    let text = chars("// TODO: x");
    assert!(contains_chars(&text, &chars("TODO:")));
    assert!(contains_chars(&text, &chars("//")));
    assert!(contains_chars(&text, &chars(": x")));
    assert!(contains_chars(&text, &chars("")));
    assert!(contains_chars(&text, &chars("// TODO: x")));
    assert!(!contains_chars(&text, &chars("// TODO: x ")));
    assert!(!contains_chars(&text, &chars("TODO->")));
    assert!(!contains_chars(&text, &chars("todo")));
    assert!(contains_chars(&chars(""), &chars("")));
    assert!(!contains_chars(&chars(""), &chars("a")));
    assert!(contains_chars(&chars("aab"), &chars("ab")));
}

#[test]
fn same_chars_compares_whole_texts() {
    assert!(same_chars(&chars("toml"), &chars("toml")));
    assert!(same_chars(&chars(""), &chars("")));
    assert!(!same_chars(&chars("toml"), &chars("tom")));
    assert!(!same_chars(&chars("tom"), &chars("toml")));
    assert!(!same_chars(&chars("yaml"), &chars("toml")));
}
