use gitig::text::chars_of;
use gitig::text::join;
use gitig::text::replace;
use gitig::text::split;
use gitig::text::split_lines;

fn strings(items: &[&str]) -> Vec<String> {
    items.iter().map(|s| s.to_string()).collect()
}

#[test]
fn chars_of_keeps_every_character() {
    assert_eq!(chars_of("a,é\n"), vec!['a', ',', 'é', '\n']);
    assert_eq!(chars_of(""), Vec::<char>::new());
}

#[test]
fn join_puts_the_separator_between_parts() {
    assert_eq!(join(&strings(&["a", "b", "c"]), ","), "a,b,c");
    assert_eq!(join(&strings(&["a", "b"]), ", "), "a, b");
}

#[test]
fn join_of_nothing_is_empty() {
    assert_eq!(join(&strings(&[]), ","), "");
}

#[test]
fn join_of_one_part_is_that_part() {
    assert_eq!(join(&strings(&["Rust"]), ","), "Rust");
}

#[test]
fn join_keeps_empty_parts() {
    assert_eq!(join(&strings(&["", "a", ""]), ","), ",a,");
}

#[test]
fn join_agrees_with_std() {
    let parts = strings(&["b", "", "a a", "é"]);
    assert_eq!(join(&parts, " - "), parts.join(" - "));
}

#[test]
fn split_cuts_at_every_separator() {
    assert_eq!(split("A,B,C", ','), strings(&["A", "B", "C"]));
}

#[test]
fn split_of_empty_text_is_one_empty_piece() {
    assert_eq!(split("", ','), strings(&[""]));
}

#[test]
fn split_keeps_empty_pieces() {
    assert_eq!(split(",a,,b,", ','), strings(&["", "a", "", "b", ""]));
    assert_eq!(split(",", ','), strings(&["", ""]));
}

#[test]
fn split_does_not_trim() {
    assert_eq!(split(" a , b ", ','), strings(&[" a ", " b "]));
}

#[test]
fn split_agrees_with_std() {
    for text in ["", ",", "a", "a,b", ",,a,,", "é,ü", "no comma at all"] {
        let expected: Vec<String> = text.split(',').map(|s| s.to_string()).collect();
        assert_eq!(split(text, ','), expected);
    }
}

#[test]
fn split_then_join_gives_the_text_back() {
    for text in ["", ",", "a", "a,b", ",,a,,", "Rust,Node,Go"] {
        assert_eq!(join(&split(text, ','), ","), text);
    }
}

#[test]
fn join_then_split_gives_the_parts_back() {
    let parts = strings(&["Rust", "", "Node"]);
    assert_eq!(split(&join(&parts, ","), ','), parts);
}

#[test]
fn split_lines_ends_lines_at_line_feeds() {
    assert_eq!(split_lines("a\nb\nc"), strings(&["a", "b", "c"]));
}

#[test]
fn split_lines_of_empty_text_is_empty() {
    assert_eq!(split_lines(""), Vec::<String>::new());
}

#[test]
fn split_lines_ignores_one_final_line_feed() {
    assert_eq!(split_lines("a\nb\n"), strings(&["a", "b"]));
    assert_eq!(split_lines("a\n\n"), strings(&["a", ""]));
    assert_eq!(split_lines("\n"), strings(&[""]));
}

#[test]
fn split_lines_keeps_empty_lines() {
    assert_eq!(split_lines("a\n\nb"), strings(&["a", "", "b"]));
}

#[test]
fn split_lines_takes_a_carriage_return_before_a_line_feed() {
    assert_eq!(split_lines("a\r\nb\r\n"), strings(&["a", "b"]));
    assert_eq!(split_lines("a\r\r\nb"), strings(&["a\r", "b"]));
    assert_eq!(split_lines("\r\n"), strings(&[""]));
}

#[test]
fn split_lines_keeps_a_carriage_return_elsewhere() {
    assert_eq!(split_lines("a\rb\nc\r"), strings(&["a\rb", "c\r"]));
    assert_eq!(split_lines("\r"), strings(&["\r"]));
}

#[test]
fn split_lines_agrees_with_std() {
    for text in ["", "\n", "\r", "\r\n", "a", "a\n", "a\r\n", "a\n\nb", "a\r\n\r\nb\r", "x\ry\n\n\n"] {
        let expected: Vec<String> = text.lines().map(|s| s.to_string()).collect();
        assert_eq!(split_lines(text), expected);
    }
}

#[test]
fn replace_puts_the_new_text_for_each_occurrence() {
    assert_eq!(replace("a{x}b{x}c", "{x}", "--"), "a--b--c");
}

#[test]
fn replace_without_an_occurrence_changes_nothing() {
    assert_eq!(replace("abc", "{x}", "--"), "abc");
    assert_eq!(replace("", "{x}", "--"), "");
    assert_eq!(replace("{x", "{x}", "--"), "{x");
}

#[test]
fn replace_takes_occurrences_from_the_left_without_overlap() {
    assert_eq!(replace("aaa", "aa", "b"), "ba");
    assert_eq!(replace("aaaa", "aa", "b"), "bb");
    assert_eq!(replace("abab", "aba", "x"), "xb");
}

#[test]
fn replace_does_not_look_into_what_it_put_in() {
    assert_eq!(replace("ab", "a", "aa"), "aab");
    assert_eq!(replace("{x}", "{x}", "{x}{x}"), "{x}{x}");
}

#[test]
fn replace_by_nothing_removes_the_occurrences() {
    assert_eq!(replace("a,b,c", ",", ""), "abc");
}

#[test]
fn replace_of_the_empty_text_fills_every_gap() {
    assert_eq!(replace("abc", "", "-"), "-a-b-c-");
    assert_eq!(replace("", "", "-"), "-");
}

#[test]
fn replace_agrees_with_std() {
    let cases = [
        ("", "a", "b"),
        ("a", "a", ""),
        ("banana", "ana", "x"),
        ("banana", "a", "aa"),
        ("é{all}ü", "{all}", "ß ß"),
        ("abc", "", "é"),
        ("aaa", "aaaa", "b"),
        ("aXbXc", "X", "XX"),
    ];
    for (text, from, to) in cases {
        assert_eq!(replace(text, from, to), text.replace(from, to));
    }
}
