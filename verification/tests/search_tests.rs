use minigrep::search;
use minigrep::search_case_ins;
use minigrep::split_lines;

#[test]
fn case_sensitive() {
    let query = "duct";
    let content = "\
Rust:
safe, fast, productive.
Pick three.
Duct tape.";

    assert_eq!(vec!["safe, fast, productive."], search(query, content));
}

#[test]
fn case_insensitive() {
    let query = "rUsT";
    let content = "\
Rust:
safe, fast, productive.
Pick three.
Trust me.";

    assert_eq!(vec!["Rust:", "Trust me."], search_case_ins(query, content));
}

#[test]
fn empty_query_returns_every_line() {
    let content = "alpha\nbeta\ngamma";
    let all = vec!["alpha", "beta", "gamma"];
    assert_eq!(all, search("", content));
    assert_eq!(all, search_case_ins("", content));
}

#[test]
fn empty_content_yields_no_lines() {
    assert!(search("x", "").is_empty());
    assert!(search_case_ins("x", "").is_empty());
    assert!(search("", "").is_empty());
}

#[test]
fn repeated_calls_agree() {
    let query = "three";
    let content = "one two three\nfour five\nthree blind mice";
    let first = search(query, content);
    let second = search(query, content);
    assert_eq!(first, second);
    let first_ci = search_case_ins(query, content);
    let second_ci = search_case_ins(query, content);
    assert_eq!(first_ci, second_ci);
}

#[test]
fn preserves_line_order_and_duplicates() {
    let content = "match a\nskip\nmatch a\nmatch b";
    assert_eq!(vec!["match a", "match a", "match b"], search("match", content));
}

#[test]
fn insensitive_result_covers_sensitive_result() {
    let query = "Rust";
    let content = "Rust is here\nno match\nrust again\nRustaceans";
    let sensitive = search(query, content);
    let insensitive = search_case_ins(query, content);
    assert_eq!(vec!["Rust is here", "Rustaceans"], sensitive);
    assert_eq!(vec!["Rust is here", "rust again", "Rustaceans"], insensitive);
    for line in &sensitive {
        assert!(insensitive.contains(line));
    }
}

#[test]
fn folding_affects_only_the_match_test() {
    // The returned text keeps its original casing even when the match
    // succeeds only after folding both sides.
    assert_eq!(vec!["ABBA"], search_case_ins("abba", "ABBA\nxyz"));
    assert_eq!(vec!["mixed CaSe"], search_case_ins("MIXED cAsE", "mixed CaSe"));
}

#[test]
fn trailing_terminator_adds_no_line() {
    assert_eq!(vec!["a", "b"], split_lines("a\nb\n"));
    assert_eq!(vec!["a", "b"], split_lines("a\nb"));
}

#[test]
fn carriage_return_is_part_of_the_terminator() {
    assert_eq!(vec!["a", "b"], split_lines("a\r\nb\r\n"));
    assert_eq!(vec!["a", "", "b"], split_lines("a\n\nb"));
}

#[test]
fn bare_carriage_return_is_line_text() {
    // Only a carriage return directly before a line feed belongs to the
    // terminator; anywhere else it stays in the line.
    assert_eq!(vec!["a\r"], split_lines("a\r"));
    assert_eq!(vec!["a\r"], search("", "a\r"));
    assert_eq!(vec!["a\r"], search_case_ins("", "a\r"));
    assert_eq!(vec!["a\rb"], split_lines("a\rb"));
    assert_eq!(vec!["a", "b\r"], split_lines("a\nb\r"));
}

#[test]
fn unanchored_match_counts_a_line_once() {
    assert_eq!(vec!["aaa"], search("aa", "aaa\nbbb"));
}
