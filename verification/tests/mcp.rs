use contextx::mcp::{into_tool_result, validate_query, QueryError};

#[test]
fn validate_query_trims() {
    assert_eq!(validate_query("  東京の天気  "), Ok("東京の天気"));
}

#[test]
fn validate_query_refuses_blank() {
    assert_eq!(validate_query(""), Err(QueryError::Empty));
    assert_eq!(validate_query(" \n\t\u{3000}"), Err(QueryError::Empty));
    assert_eq!(
        QueryError::Empty.message(),
        "`query`には空でない文字列を指定してください"
    );
}

#[test]
fn answers_become_successful_tool_results() {
    let r = into_tool_result(Ok("answer".to_owned()));
    assert!(!r.is_error);
    assert_eq!(r.text, "answer");
}

#[test]
fn failures_become_tool_errors() {
    let r = into_tool_result(Err("failed".to_owned()));
    assert!(r.is_error);
    assert_eq!(r.text, "failed");
}
