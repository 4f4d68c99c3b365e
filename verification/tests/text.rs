use irc::text::{
    flags_of, join_str_iter, join_with_spaces, split_on, strip_leading, tokens_from,
    trim_end_from, trimmed_end,
};

fn strings(items: &[&str]) -> Vec<String> {
    items.iter().map(|s| s.to_string()).collect()
}

#[test]
fn split_cuts_at_every_separator() {
    assert_eq!(split_on("JOIN #foo,#bar fubar", ' '), strings(&["JOIN", "#foo,#bar", "fubar"]));
    assert_eq!(split_on("#foo,#bar", ','), strings(&["#foo", "#bar"]));
}

#[test]
fn split_of_nothing_is_one_empty_piece() {
    assert_eq!(split_on("", ' '), strings(&[""]));
}

#[test]
fn split_keeps_empty_pieces() {
    assert_eq!(split_on("a  b", ' '), strings(&["a", "", "b"]));
    assert_eq!(split_on(" a", ' '), strings(&["", "a"]));
    assert_eq!(split_on("a ", ' '), strings(&["a", ""]));
    assert_eq!(split_on(" ", ' '), strings(&["", ""]));
}

#[test]
fn split_counts_characters_not_bytes() {
    assert_eq!(split_on("\u{e9}t\u{e9} l\u{e0}", ' '), strings(&["\u{e9}t\u{e9}", "l\u{e0}"]));
}

#[test]
fn joining_a_split_gives_the_text_back() {
    for text in ["", " ", "a", "a b", " a  b ", "JOIN #foo,#bar fubar,foobar"] {
        assert_eq!(join_with_spaces(&split_on(text, ' '), 0), text);
    }
}

#[test]
fn splitting_what_was_joined_gives_the_parts_back() {
    let parts = strings(&["a", "", "bc", ""]);
    assert_eq!(split_on(&join_with_spaces(&parts, 0), ' '), parts);
}

#[test]
fn join_with_spaces_starts_where_it_is_told() {
    let tokens = strings(&["USER", "guest", "0", "*", ":Ronnie", "Reagan"]);
    assert_eq!(join_with_spaces(&tokens, 4), ":Ronnie Reagan");
    assert_eq!(join_with_spaces(&tokens, 5), "Reagan");
    assert_eq!(join_with_spaces(&tokens, 6), "");
    assert_eq!(join_with_spaces(&tokens, 7), "");
}

#[test]
fn join_str_iter_puts_a_space_after_each_and_trims_the_end() {
    assert_eq!(join_str_iter(&strings(&["a", "b"]), 0), "a b");
    assert_eq!(join_str_iter(&strings(&["a", "b", "", ""]), 0), "a b");
    assert_eq!(join_str_iter(&strings(&["", "a"]), 0), " a");
    assert_eq!(join_str_iter(&strings(&[]), 0), "");
    assert_eq!(join_str_iter(&strings(&["a", "b", "c"]), 1), "b c");
    assert_eq!(join_str_iter(&strings(&["a"]), 1), "");
    assert_eq!(join_str_iter(&strings(&["a"]), 5), "");
}

#[test]
fn trimming_takes_every_kind_of_white_space_off_the_end() {
    assert_eq!(trimmed_end("bye \t\r\n"), "bye");
    assert_eq!(trimmed_end("bye\u{3000}\u{a0}"), "bye");
    assert_eq!(trimmed_end("  bye"), "  bye");
    assert_eq!(trimmed_end(" \t "), "");
    assert_eq!(trimmed_end(""), "");
    assert_eq!(trimmed_end("a b"), "a b");
}

#[test]
fn strip_leading_takes_one_character_at_most() {
    assert_eq!(strip_leading(":bye", ':'), "bye");
    assert_eq!(strip_leading("::bye", ':'), ":bye");
    assert_eq!(strip_leading("bye", ':'), "bye");
    assert_eq!(strip_leading("", ':'), "");
    assert_eq!(strip_leading(":", ':'), "");
}

#[test]
fn tokens_from_copies_the_tail() {
    let tokens = strings(&["a", "b", "c"]);
    assert_eq!(tokens_from(&tokens, 0), tokens);
    assert_eq!(tokens_from(&tokens, 2), strings(&["c"]));
    assert_eq!(tokens_from(&tokens, 3), strings(&[]));
    assert_eq!(tokens_from(&tokens, 4), strings(&[]));
}

#[test]
fn flags_tell_white_space_from_the_rest() {
    assert_eq!(flags_of("a b\t\u{3000}c\n"), vec![false, true, false, true, true, false, true]);
    assert_eq!(flags_of(""), Vec::<bool>::new());
}

#[test]
fn trimming_goes_by_the_flags_it_is_given() {
    assert_eq!(trim_end_from("abcd", &vec![false, false, true, true]), "ab");
    assert_eq!(trim_end_from("abcd", &vec![true, false, true, true]), "ab");
    assert_eq!(trim_end_from("abcd", &vec![true, true, true, true]), "");
    assert_eq!(trim_end_from("abcd", &vec![false, false, false, false]), "abcd");
    assert_eq!(trim_end_from("abcd", &vec![true, true, true]), "abcd");
    assert_eq!(trim_end_from("abcd", &vec![false, false, true, true, true]), "ab");
    assert_eq!(trim_end_from("", &vec![true]), "");
}
