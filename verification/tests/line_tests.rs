use minigrep::lines::split_lines;
use minigrep::matching::contains_substring;
use minigrep::search::search;

#[test]
fn empty_document_has_no_lines() {
    assert_eq!(split_lines(""), Vec::<&str>::new());
    assert_eq!(search("anything", ""), Vec::<&str>::new());
    assert_eq!(search("", ""), Vec::<&str>::new());
}

#[test]
fn trailing_newline_adds_no_line() {
    assert_eq!(split_lines("a\nb\n"), ["a", "b"]);
    assert_eq!(split_lines("a\nb"), ["a", "b"]);
}

#[test]
fn carriage_return_before_newline_is_dropped() {
    assert_eq!(split_lines("a\r\nb\r\n"), ["a", "b"]);
}

#[test]
fn lone_carriage_return_stays_in_the_line() {
    assert_eq!(split_lines("a\rb\nc"), ["a\rb", "c"]);
    assert_eq!(split_lines("a\r"), ["a\r"]);
}

#[test]
fn empty_lines_are_lines() {
    assert_eq!(split_lines("a\n\nb"), ["a", "", "b"]);
    assert_eq!(split_lines("\n"), [""]);
}

#[test]
fn substring_containment() {
    assert!(contains_substring("banana", "ana"));
    assert!(contains_substring("banana", ""));
    assert!(contains_substring("banana", "banana"));
    assert!(!contains_substring("banana", "bananas"));
    assert!(!contains_substring("banana", "Ana"));
    assert!(!contains_substring("", "a"));
    assert!(contains_substring("", ""));
}
