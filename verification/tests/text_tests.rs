use repolens::render::dec_string;
use repolens::text::{
    after_last, join_lines, lines_of, split_on, starts_with_str, str_eq, tokens_of, trim_ws,
    unlines,
};

#[test]
fn split_keeps_empty_segments() {
    assert_eq!(split_on("a,b,,c", ','), vec!["a", "b", "", "c"]);
    assert_eq!(split_on("", ','), vec![""]);
    assert_eq!(split_on(",", ','), vec!["", ""]);
}

#[test]
fn lines_drop_one_trailing_newline() {
    assert_eq!(lines_of("a\nb\n"), vec!["a", "b"]);
    assert_eq!(lines_of("a\nb"), vec!["a", "b"]);
    assert_eq!(lines_of("\n"), vec![""]);
    assert_eq!(lines_of("a\n\n"), vec!["a", ""]);
    assert!(lines_of("").is_empty());
}

#[test]
fn lines_drop_carriage_returns() {
    assert_eq!(lines_of("a\r\nb\r\n"), vec!["a", "b"]);
    assert_eq!(lines_of("a\r\nb"), vec!["a", "b"]);
    assert_eq!(lines_of("a\rb\n"), vec!["a\rb"]);
}

#[test]
fn tokens_are_nonspace_runs() {
    assert_eq!(tokens_of("  a\tbb  c "), vec!["a", "bb", "c"]);
    assert_eq!(tokens_of("one"), vec!["one"]);
    assert!(tokens_of("   ").is_empty());
    assert!(tokens_of("").is_empty());
}

#[test]
fn trim_strips_both_ends() {
    assert_eq!(trim_ws("  x y \t"), "x y");
    assert_eq!(trim_ws("xy"), "xy");
    assert_eq!(trim_ws("  \t "), "");
}

#[test]
fn after_last_takes_final_occurrence() {
    assert_eq!(after_last("diff --git a/x b/y", " b/"), "y");
    assert_eq!(after_last("a b/one b/two", " b/"), "two");
    assert_eq!(after_last("abc", "zz"), "abc");
}

#[test]
fn string_comparisons() {
    assert!(str_eq("abc", "abc"));
    assert!(!str_eq("abc", "abd"));
    assert!(!str_eq("abc", "ab"));
    assert!(starts_with_str("diff --git a/x", "diff --git"));
    assert!(!starts_with_str("dif", "diff"));
}

#[test]
fn joins_round_trip_lines() {
    let v = vec!["a".to_string(), "b".to_string()];
    assert_eq!(join_lines(&v), "a\nb");
    assert_eq!(unlines(&v), "a\nb\n");
    assert_eq!(join_lines(&Vec::new()), "");
    assert_eq!(unlines(&Vec::new()), "");
    assert_eq!(lines_of(&unlines(&v)), v);
}

#[test]
fn decimal_formatting() {
    assert_eq!(dec_string(0), "0");
    assert_eq!(dec_string(7), "7");
    assert_eq!(dec_string(10), "10");
    assert_eq!(dec_string(90210), "90210");
}
