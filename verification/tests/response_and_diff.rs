use code_review::diff::diff_args;
use code_review::response::parse_review_body;

#[test]
fn fragments_fold_until_done() {
    let body = "{\"response\":\"A\",\"done\":false}\n{\"response\":\"B\",\"done\":true}\n{\"response\":\"C\",\"done\":false}";
    assert_eq!(parse_review_body(body), "AB");
}

#[test]
fn malformed_line_between_fragments_is_skipped() {
    let body = "{\"response\":\"A\",\"done\":false}\nnot json at all\n{\"response\":\"B\",\"done\":false}";
    assert_eq!(parse_review_body(body), "AB");
}

#[test]
fn empty_body_yields_empty_review() {
    assert_eq!(parse_review_body(""), "");
}

#[test]
fn absent_fields_default_to_empty_and_not_done() {
    let body = "{}\n{\"response\":\"A\"}\n{\"done\":true}\n{\"response\":\"B\"}";
    assert_eq!(parse_review_body(body), "A");
}

#[test]
fn non_object_lines_are_skipped() {
    let body = "42\n[1,2]\n\"text\"\n{\"response\":\"ok\",\"done\":true}";
    assert_eq!(parse_review_body(body), "ok");
}

#[test]
fn wrong_field_types_fail_to_decode() {
    let body = "{\"response\":3,\"done\":false}\n{\"response\":\"A\",\"done\":\"yes\"}\n{\"response\":\"B\",\"done\":false}";
    assert_eq!(parse_review_body(body), "B");
}

#[test]
fn unknown_fields_are_ignored() {
    let body = "{\"response\":\"A\",\"done\":false,\"model\":\"m\",\"context\":[1,2]}";
    assert_eq!(parse_review_body(body), "A");
}

#[test]
fn carriage_return_line_endings_are_handled() {
    let body = "{\"response\":\"A\",\"done\":false}\r\n{\"response\":\"B\",\"done\":true}\r\n";
    assert_eq!(parse_review_body(body), "AB");
}

#[test]
fn no_done_fragment_consumes_all_lines() {
    let body = "{\"response\":\"A\"}\n{\"response\":\"B\"}\n{\"response\":\"C\"}";
    assert_eq!(parse_review_body(body), "ABC");
}

#[test]
fn diff_args_without_staged() {
    assert_eq!(diff_args(".", false), vec!["diff".to_string(), ".".to_string()]);
}

#[test]
fn diff_args_with_staged() {
    assert_eq!(
        diff_args("src", true),
        vec!["diff".to_string(), "--staged".to_string(), "src".to_string()]
    );
}
