use real_time_sqlx::like::{sql_ilike, sql_like};

#[test]
fn test_sql_like() {
    assert!(sql_like("he_lo", "hello"));
    assert!(sql_like("h%o", "hello"));
    assert!(!sql_like("h%o", "hi"));
    assert!(sql_like("%", "anything"));
    assert!(sql_like("_____", "12345"));
    assert!(sql_like("_%_", "abc"));
    assert!(sql_like("h_llo", "hello"));
    assert!(!sql_like("he_lo", "heeeelo"));
}

#[test]
fn like_percent_matches_empty_and_any_length() {
    assert!(sql_like("%", ""));
    assert!(sql_like("%", "a"));
    assert!(sql_like("%", "a much longer text"));
    assert!(sql_like("a%", "a"));
    assert!(!sql_like("a%", "ba"));
}

#[test]
fn like_underscore_matches_one_code_point() {
    assert!(sql_like("_", "é"));
    assert!(sql_like("_", "x"));
    assert!(!sql_like("_", ""));
    assert!(!sql_like("_", "xy"));
}

#[test]
fn like_literal_matches_only_itself() {
    assert!(sql_like("abc", "abc"));
    assert!(!sql_like("abc", "abd"));
    assert!(!sql_like("abc", "ab"));
    assert!(sql_like("", ""));
    assert!(!sql_like("", "a"));
}

#[test]
fn like_examples_of_the_design() {
    assert!(sql_like("h%o", "hello"));
    assert!(sql_like("he_lo", "hello"));
    assert!(!sql_like("h%o", "hi"));
    assert!(sql_ilike("HE%", "hello world"));
}

#[test]
fn ilike_lowercases_both_sides() {
    assert!(sql_ilike("hello", "HELLO"));
    assert!(sql_ilike("H_LLO", "hello"));
    assert!(!sql_like("HE%", "hello world"));
    assert!(!sql_ilike("he%", "world"));
}
