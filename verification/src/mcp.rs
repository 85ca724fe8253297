//! The checks and answers of the MCP search tools.
use vstd::prelude::*;
use crate::text::{
    chars_of, is_blank, is_trimmed, lemma_trim_idempotent, lemma_trim_is_trimmed, trim, trim_bounds,
};

verus! {

/// Why a tool call's parameters were refused.
#[derive(Debug, Clone, Copy, PartialEq, Eq, Structural)]
pub enum QueryError {
    /// The query is empty or only whitespace.
    Empty,
}

/// The message of an invalid-parameters error for an empty query.
pub const EMPTY_QUERY_MESSAGE: &'static str = "`query`には空でない文字列を指定してください";

impl QueryError {
    /// The message sent with the invalid-parameters error.
    pub fn message(&self) -> (m: &'static str)
        ensures
            m == EMPTY_QUERY_MESSAGE,
    {
        match self {
            QueryError::Empty => EMPTY_QUERY_MESSAGE,
        }
    }
}

/// Checks a search query before it is sent upstream: surrounding whitespace
/// is removed, and a query that is then empty is refused.
pub fn validate_query(query: &str) -> (r: Result<&str, QueryError>)
    ensures
        r is Err <==> is_blank(query@),
        r matches Ok(q) ==> q@ == trim(query@),
        r matches Err(e) ==> e == QueryError::Empty,
        r matches Ok(q) ==> !is_blank(q@) && is_trimmed(q@),
{
    proof {
        lemma_trim_is_trimmed(query@);
        lemma_trim_idempotent(query@);
    }
    let v = chars_of(query);
    let (a, b) = trim_bounds(&v);
    if a == b {
        return Err(QueryError::Empty);
    }
    Ok(query.substring_char(a, b))
}

/// The reply of a search tool: the answer, or the upstream failure reported
/// as a tool error (the call itself succeeds either way).
#[derive(Debug)]
pub struct ToolResult {
    pub is_error: bool,
    pub text: String,
}

/// Turns a search outcome into the tool's reply.
pub fn into_tool_result(answer: Result<String, String>) -> (r: ToolResult)
    ensures
        r.is_error == answer is Err,
        r.text == match answer {
            Ok(a) => a,
            Err(m) => m,
        },
{
    match answer {
        Ok(answer) => ToolResult { is_error: false, text: answer },
        Err(message) => ToolResult { is_error: true, text: message },
    }
}

} // verus!
