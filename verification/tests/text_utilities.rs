use uni_headless::coordinator::page_number_of_url;
use uni_headless::is_vpl_url;
use uni_headless::text::normalize_url;
use uni_headless::text::{
    contains_str, digits_string, escape_js_string, escape_js_template, escape_single_quotes,
    prepend_newline, str_eq, url_base_eq,
};

#[test]
fn vpl_urls_are_detected() {
    assert!(is_vpl_url("https://moodle.caseine.org/mod/vpl/view.php?id=1"));
    assert!(!is_vpl_url("https://moodle.caseine.org/mod/quiz/view.php?id=1"));
}

#[test]
fn substring_search_finds_and_misses() {
    assert!(contains_str("hello world", "lo wo"));
    assert!(contains_str("abc", ""));
    assert!(!contains_str("abc", "abcd"));
    assert!(!contains_str("abc", "ac"));
}

#[test]
fn string_equality_is_exact() {
    assert!(str_eq("same", "same"));
    assert!(!str_eq("same", "Same"));
    assert!(!str_eq("same", "sam"));
}

#[test]
fn url_bases_compare_without_query() {
    assert!(url_base_eq("https://h/p?a=1", "https://h/p?b=2"));
    assert!(url_base_eq("https://h/p", "https://h/p?b=2"));
    assert!(!url_base_eq("https://h/p", "https://h/q"));
}

#[test]
fn numbers_render_in_decimal() {
    assert_eq!(digits_string(0), "0");
    assert_eq!(digits_string(7), "7");
    assert_eq!(digits_string(305), "305");
    assert_eq!(digits_string(12090), "12090");
}

#[test]
fn shell_single_quote_escaping() {
    assert_eq!(escape_single_quotes("it's done"), "it'\\''s done");
    assert_eq!(escape_single_quotes("plain"), "plain");
}

#[test]
fn script_string_escaping() {
    assert_eq!(escape_js_string("a\"b\\c\nd"), "a\\\"b\\\\c\\nd");
}

#[test]
fn script_template_escaping() {
    assert_eq!(escape_js_template("x`y$z\tw"), "x\\`y\\$z\\tw");
    assert_eq!(escape_js_template("`$\\"), "\\`\\$\\\\");
}

#[test]
fn file_content_gets_a_leading_blank_line() {
    assert_eq!(prepend_newline("print(1)"), "\nprint(1)");
    assert_eq!(prepend_newline(""), "\n");
}

#[test]
fn urls_get_a_scheme_when_missing() {
    assert_eq!(normalize_url("moodle.caseine.org/a"), "https://moodle.caseine.org/a");
    assert_eq!(normalize_url("http://h/a"), "http://h/a");
    assert_eq!(normalize_url("https://h/a"), "https://h/a");
}

#[test]
fn page_numbers_parse_from_quiz_urls() {
    assert_eq!(page_number_of_url("https://h/attempt.php?attempt=9&page=3&cmid=7"), Some(3));
    assert_eq!(page_number_of_url("https://h/attempt.php?page=12"), Some(12));
    assert_eq!(page_number_of_url("https://h/attempt.php?attempt=9"), None);
    assert_eq!(page_number_of_url("https://h/a?page=3x&z=1"), None);
    assert_eq!(page_number_of_url("https://h/a?page="), None);
}
