use eval_harness::identity;
use eval_harness::normalize::{normalize_source, promote_expr_to_module};

const HEADER: &str = "app \"test\" provides [ main ] to \"./platform\"\n\nmain =\n";

#[test]
fn one_plus_one_is_wrapped_and_indented() {
    let out = promote_expr_to_module("1 + 1");
    assert_eq!(out, format!("{}    1 + 1\n", HEADER));
}

#[test]
fn each_line_of_a_multi_line_expression_is_indented() {
    let out = promote_expr_to_module("x = 3\nx + 4");
    assert_eq!(out, format!("{}    x = 3\n    x + 4\n", HEADER));
}

#[test]
fn a_trailing_newline_adds_no_extra_line() {
    assert_eq!(
        promote_expr_to_module("1 + 1\n"),
        promote_expr_to_module("1 + 1")
    );
}

#[test]
fn carriage_return_line_feed_is_one_terminator() {
    let out = promote_expr_to_module("a\r\nb");
    assert_eq!(out, format!("{}    a\n    b\n", HEADER));
}

#[test]
fn an_empty_line_is_kept_indented() {
    let out = promote_expr_to_module("a\n\nb");
    assert_eq!(out, format!("{}    a\n    \n    b\n", HEADER));
}

#[test]
fn empty_source_yields_the_bare_wrapper() {
    assert_eq!(promote_expr_to_module(""), HEADER);
}

#[test]
fn module_source_is_used_unmodified() {
    let src = "app \"quicksort\" provides [ main ] to \"./platform\"\n\nmain = 1\n";
    assert_eq!(normalize_source(src), src);
}

#[test]
fn bare_expression_is_promoted_by_normalize() {
    assert_eq!(normalize_source("1 + 1"), promote_expr_to_module("1 + 1"));
}

#[test]
fn identity_hands_values_back() {
    assert_eq!(identity(2i64), 2);
    assert_eq!(identity("nine"), "nine");
    assert_eq!(identity(vec![1u8, 2, 3]), vec![1u8, 2, 3]);
}
