use minigrep::search::run_search;
use minigrep::search::search;
use minigrep::search::search_incase_sensitive;
use minigrep::search::MatchMode;

#[test]
fn positive_case() {
    let query = "tab";
    let contents = "\
Oxwazz:
mantabbanget, gg, wp.
Terima kasih.";
    assert_eq!(search(&query, &contents), ["mantabbanget, gg, wp."])
}

#[test]
fn incase_sensitive() {
    let query = "tABbAnG";
    let contents = "\
Oxwazz:
mantabbanget, gg, wp.
Terima kasih.";
    assert_eq!(search_incase_sensitive(&query, &contents), ["mantabbanget, gg, wp."])
}

#[test]
fn folded_same_case_query() {
    let contents = "\
Oxwazz:
mantabbanget, gg, wp.
Terima kasih.";
    assert_eq!(search_incase_sensitive("tab", contents), ["mantabbanget, gg, wp."]);
}

#[test]
fn absent_query_either_mode() {
    let contents = "\
Oxwazz:
mantabbanget, gg, wp.
Terima kasih.";
    assert_eq!(search("notfound", contents), Vec::<&str>::new());
    assert_eq!(search_incase_sensitive("notfound", contents), Vec::<&str>::new());
}

#[test]
fn no_match_returns_empty() {
    let contents = "alpha\nbeta\ngamma";
    assert_eq!(search("zzz-not-present", contents), Vec::<&str>::new());
}

#[test]
fn empty_query_matches_every_line() {
    let contents = "alpha\nbeta\ngamma";
    assert_eq!(search("", contents), ["alpha", "beta", "gamma"]);
}

#[test]
fn search_is_idempotent() {
    let query = "an";
    let contents = "banana\nkiwi\nmango";
    let first = search(query, contents);
    let second = search(query, contents);
    assert_eq!(first, second);
    let folded_first = search_incase_sensitive(query, contents);
    let folded_second = search_incase_sensitive(query, contents);
    assert_eq!(folded_first, folded_second);
}

#[test]
fn order_of_matches_is_document_order() {
    let contents = "one match\ntwo\nthree match\nfour match\nfive";
    assert_eq!(search("match", contents), ["one match", "three match", "four match"]);
}

#[test]
fn duplicate_lines_are_kept() {
    let contents = "same\nother\nsame";
    assert_eq!(search("same", contents), ["same", "same"]);
}

#[test]
fn run_search_selects_the_mode() {
    let contents = "Alpha\nalpha\nbeta";
    assert_eq!(run_search(MatchMode::Exact, "Alpha", contents), ["Alpha"]);
    assert_eq!(run_search(MatchMode::Folded, "Alpha", contents), ["Alpha", "alpha"]);
}

#[test]
fn folded_matches_uppercase_lines() {
    let contents = "LOUD LINE\nquiet line";
    assert_eq!(search_incase_sensitive("loud", contents), ["LOUD LINE"]);
    assert_eq!(search("loud", contents), Vec::<&str>::new());
}
