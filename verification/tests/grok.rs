use contextx::grok::{
    answer_from_parsed_body, build_payload, dispatch_stream_event, extract_chat_answer,
    extract_responses_answer, extract_stream_error, finish_streaming_answer, is_event_stream,
    parse_non_streaming_answer, process_stream_event, search_settings, truncate,
    upstream_status_error, ApiFormat, RequestPayload, SearchMode, StreamControl,
    DEEP_INSTRUCTIONS, DEEP_MODEL, FAST_INSTRUCTIONS, FAST_MODEL, ULTRA_INSTRUCTIONS,
    ULTRA_REASONING_EFFORT,
};
use contextx::json::Json;

fn json(text: &str) -> Json {
    Json::parse(text).unwrap()
}

#[test]
fn upstream_models_are_fixed() {
    assert_eq!(FAST_MODEL, "grok-4.3");
    assert_eq!(DEEP_MODEL, "grok-4.20-multi-agent-0309");
}

#[test]
fn builds_responses_payload() {
    let payload = build_payload(
        ApiFormat::Responses,
        FAST_MODEL,
        FAST_INSTRUCTIONS,
        "問い合わせ",
        None,
    );
    let RequestPayload::Responses(request) = payload else {
        panic!("expected a Responses payload");
    };

    assert_eq!(request.model, FAST_MODEL);
    assert_eq!(request.instructions, FAST_INSTRUCTIONS);
    assert_eq!(request.input, "問い合わせ");
    assert!(request.stream);
    assert!(request.reasoning_effort.is_none());
}

#[test]
fn builds_chat_payload() {
    let payload = build_payload(
        ApiFormat::Chat,
        DEEP_MODEL,
        ULTRA_INSTRUCTIONS,
        "問い合わせ",
        Some(ULTRA_REASONING_EFFORT),
    );
    let RequestPayload::Chat(request) = payload else {
        panic!("expected a Chat payload");
    };

    assert_eq!(request.model, DEEP_MODEL);
    assert_eq!(request.messages[0].role, "system");
    assert_eq!(request.messages[0].content, ULTRA_INSTRUCTIONS);
    assert_eq!(request.messages[1].role, "user");
    assert_eq!(request.messages[1].content, "問い合わせ");
    assert!(request.stream);
    assert_eq!(request.reasoning_effort, Some(ULTRA_REASONING_EFFORT));
    assert_eq!(request.messages.len(), 2);
}

#[test]
fn standard_search_omits_reasoning_effort() {
    let payload = build_payload(ApiFormat::Chat, FAST_MODEL, FAST_INSTRUCTIONS, "q", None);
    let RequestPayload::Chat(request) = payload else {
        panic!("expected a Chat payload");
    };

    assert!(request.reasoning_effort.is_none());
}

#[test]
fn deep_search_omits_reasoning_effort() {
    let payload = build_payload(ApiFormat::Chat, DEEP_MODEL, DEEP_INSTRUCTIONS, "q", None);
    let RequestPayload::Chat(request) = payload else {
        panic!("expected a Chat payload");
    };

    assert!(request.reasoning_effort.is_none());
}

#[test]
fn search_levels_select_upstream_model_and_effort() {
    let standard = search_settings(SearchMode::Standard);
    assert!(!standard.use_deep_upstream);
    assert_eq!(standard.model, FAST_MODEL);
    assert_eq!(standard.instructions, FAST_INSTRUCTIONS);
    assert!(standard.reasoning_effort.is_none());

    let deep = search_settings(SearchMode::Deep);
    assert!(deep.use_deep_upstream);
    assert_eq!(deep.model, DEEP_MODEL);
    assert_eq!(deep.instructions, DEEP_INSTRUCTIONS);
    assert!(deep.reasoning_effort.is_none());

    let ultra = search_settings(SearchMode::Ultra);
    assert!(ultra.use_deep_upstream);
    assert_eq!(ultra.model, DEEP_MODEL);
    assert_eq!(ultra.instructions, ULTRA_INSTRUCTIONS);
    assert_eq!(ultra.reasoning_effort, Some("xhigh"));
}

#[test]
fn upstream_instructions_are_english() {
    for instructions in [FAST_INSTRUCTIONS, DEEP_INSTRUCTIONS, ULTRA_INSTRUCTIONS] {
        assert!(instructions.is_ascii());
        assert!(instructions.contains("same language as the user's query"));
        assert!(instructions.contains("Never return an empty response"));
    }
}

#[test]
fn ultra_instructions_are_strictest() {
    assert!(ULTRA_INSTRUCTIONS.len() > DEEP_INSTRUCTIONS.len());
    assert!(ULTRA_INSTRUCTIONS.contains("cross-verify"));
}

#[test]
fn extracts_output_text() {
    let response = json(
        r#"{"output":[{"type":"message","content":[{"type":"output_text","text":"検索結果です"}]}]}"#,
    );

    assert_eq!(
        extract_responses_answer(&response).as_deref(),
        Some("検索結果です")
    );
}

#[test]
fn combines_multiple_output_text_parts() {
    let response = json(
        r#"{"output":[
            {"type":"message","content":[{"type":"output_text","text":"1行目"}]},
            {"type":"message","content":[{"type":"output_text","text":"2行目"}]}
        ]}"#,
    );

    assert_eq!(
        extract_responses_answer(&response).as_deref(),
        Some("1行目\n2行目")
    );
}

#[test]
fn extracts_top_level_output_text() {
    let response = json(r#"{"output_text":"検索結果です"}"#);

    assert_eq!(
        extract_responses_answer(&response).as_deref(),
        Some("検索結果です")
    );
}

#[test]
fn extracts_chat_message_content() {
    let response = json(r#"{"choices":[{"message":{"content":"検索結果です"}}]}"#);

    assert_eq!(
        extract_chat_answer(&response).as_deref(),
        Some("検索結果です")
    );
}

#[test]
fn skips_parts_of_other_types_and_blank_answers() {
    let response = json(
        r#"{"output_text":"  ","output":[
            {"type":"reasoning","content":[{"type":"reasoning_text","text":"思考"}]},
            {"type":"message","content":[{"text":"型なし"},{"type":"output_text","text":"本文"},{"type":"output_text"}]},
            {"type":"message"}
        ]}"#,
    );

    assert_eq!(
        extract_responses_answer(&response).as_deref(),
        Some("型なし\n本文")
    );
    assert!(extract_responses_answer(&json(r#"{"output":[]}"#)).is_none());
    assert!(extract_responses_answer(&json(r#"{"output_text":" \n "}"#)).is_none());
    assert!(extract_chat_answer(&json(r#"{"choices":[{"message":{"content":"  "}}]}"#)).is_none());
    assert!(extract_chat_answer(&json(r#"{"choices":[]}"#)).is_none());
}

#[test]
fn appends_streaming_deltas() {
    let mut answer = String::new();

    let first = process_stream_event(
        ApiFormat::Responses,
        "response.output_text.delta",
        r#"{"type":"response.output_text.delta","delta":"検索"}"#,
        &mut answer,
    );
    let second = process_stream_event(
        ApiFormat::Responses,
        "response.output_text.delta",
        r#"{"type":"response.output_text.delta","delta":"結果"}"#,
        &mut answer,
    );

    assert_eq!(first, Ok(StreamControl::Continue));
    assert_eq!(second, Ok(StreamControl::Continue));
    assert_eq!(answer, "検索結果");
}

#[test]
fn output_text_done_keeps_accumulated_deltas() {
    let mut answer = String::new();

    process_stream_event(
        ApiFormat::Responses,
        "response.output_text.delta",
        r#"{"type":"response.output_text.delta","delta":"1つ目"}"#,
        &mut answer,
    )
    .unwrap();
    process_stream_event(
        ApiFormat::Responses,
        "response.output_text.done",
        r#"{"type":"response.output_text.done","text":"1つ目"}"#,
        &mut answer,
    )
    .unwrap();
    process_stream_event(
        ApiFormat::Responses,
        "response.output_text.delta",
        r#"{"type":"response.output_text.delta","delta":"2つ目"}"#,
        &mut answer,
    )
    .unwrap();
    process_stream_event(
        ApiFormat::Responses,
        "response.output_text.done",
        r#"{"type":"response.output_text.done","text":"2つ目"}"#,
        &mut answer,
    )
    .unwrap();

    assert_eq!(answer, "1つ目2つ目");
}

#[test]
fn output_text_done_fills_answer_without_deltas() {
    let mut answer = String::new();

    let result = process_stream_event(
        ApiFormat::Responses,
        "response.output_text.done",
        r#"{"type":"response.output_text.done","text":"回答のみ"}"#,
        &mut answer,
    );

    assert_eq!(result, Ok(StreamControl::Continue));
    assert_eq!(answer, "回答のみ");
}

#[test]
fn appends_chat_streaming_deltas() {
    let mut answer = String::new();

    let first = process_stream_event(
        ApiFormat::Chat,
        "message",
        r#"{"choices":[{"delta":{"content":"検索"},"finish_reason":null}]}"#,
        &mut answer,
    );
    let second = process_stream_event(
        ApiFormat::Chat,
        "message",
        r#"{"choices":[{"delta":{"content":"結果"},"finish_reason":null}]}"#,
        &mut answer,
    );
    let last = process_stream_event(
        ApiFormat::Chat,
        "message",
        r#"{"choices":[{"delta":{},"finish_reason":"stop"}]}"#,
        &mut answer,
    );

    assert_eq!(first, Ok(StreamControl::Continue));
    assert_eq!(second, Ok(StreamControl::Continue));
    assert_eq!(last, Ok(StreamControl::Completed));
    assert_eq!(answer, "検索結果");
}

#[test]
fn ignores_null_error_field_in_chat_stream() {
    let mut answer = String::new();

    let result = process_stream_event(
        ApiFormat::Chat,
        "message",
        r#"{"error":null,"choices":[{"delta":{"content":"検索結果"},"finish_reason":null}]}"#,
        &mut answer,
    );

    assert_eq!(result, Ok(StreamControl::Continue));
    assert_eq!(answer, "検索結果");
}

#[test]
fn reports_chat_stream_error() {
    let mut answer = String::new();

    let result = process_stream_event(
        ApiFormat::Chat,
        "message",
        r#"{"error":{"message":"レート制限"}}"#,
        &mut answer,
    );

    assert_eq!(
        result,
        Err("Grok上流APIの処理が完了しませんでした: レート制限".to_owned())
    );
}

#[test]
fn uses_completed_response_as_final_answer() {
    let mut answer = "途中".to_owned();
    let data = r#"{"type":"response.completed","response":{"output":[{"type":"message","content":[{"type":"output_text","text":"最終回答"}]}]}}"#;

    let result = process_stream_event(
        ApiFormat::Responses,
        "response.completed",
        data,
        &mut answer,
    );

    assert_eq!(result, Ok(StreamControl::Completed));
    assert_eq!(answer, "最終回答");
}

#[test]
fn truncates_by_character_count() {
    assert_eq!(truncate("あいうえお", 3), "あいう…");
    assert_eq!(truncate("あいう", 3), "あいう");
}

#[test]
fn blank_data_and_done_marker() {
    let mut answer = "既存".to_owned();
    assert_eq!(
        process_stream_event(ApiFormat::Responses, "message", "  \n", &mut answer),
        Ok(StreamControl::Continue)
    );
    assert_eq!(
        process_stream_event(ApiFormat::Chat, "message", " [DONE] ", &mut answer),
        Ok(StreamControl::Completed)
    );
    assert_eq!(answer, "既存");
}

#[test]
fn non_json_events() {
    let mut answer = String::new();
    assert_eq!(
        process_stream_event(ApiFormat::Responses, "ping", "keep-alive", &mut answer),
        Ok(StreamControl::Continue)
    );
    let result = process_stream_event(ApiFormat::Responses, "message", "keep-alive", &mut answer);
    let message = result.unwrap_err();
    assert!(message.starts_with("Grok上流APIが不正なストリームイベントを返しました: "));
    assert!(message.len() > "Grok上流APIが不正なストリームイベントを返しました: ".len());
    assert_eq!(answer, "");
}

#[test]
fn event_type_falls_back_to_event_name() {
    let mut answer = String::new();
    assert_eq!(
        process_stream_event(
            ApiFormat::Responses,
            "response.output_text.delta",
            r#"{"delta":"名前から"}"#,
            &mut answer,
        ),
        Ok(StreamControl::Continue)
    );
    assert_eq!(answer, "名前から");
}

#[test]
fn responses_failures_report_their_reason() {
    let mut answer = "途中".to_owned();
    let failed = process_stream_event(
        ApiFormat::Responses,
        "response.failed",
        r#"{"type":"response.failed","response":{"error":{"message":"上流エラー"}}}"#,
        &mut answer,
    );
    assert_eq!(
        failed,
        Err("Grok上流APIの処理が完了しませんでした: 上流エラー".to_owned())
    );
    let incomplete = process_stream_event(
        ApiFormat::Responses,
        "response.incomplete",
        r#"{"type":"response.incomplete","response":{"incomplete_details":{"reason":"max_output_tokens"}}}"#,
        &mut answer,
    );
    assert_eq!(
        incomplete,
        Err("Grok上流APIの処理が完了しませんでした: max_output_tokens".to_owned())
    );
    assert_eq!(answer, "途中");
}

#[test]
fn stream_error_reasons_in_order() {
    assert_eq!(extract_stream_error(&json(r#"{"message":"m","error":{"message":"e"}}"#)), "e");
    assert_eq!(extract_stream_error(&json(r#"{"message":"m"}"#)), "m");
    assert_eq!(extract_stream_error(&json(r#"{"error":"文字列"}"#)), "詳細不明");
    assert_eq!(extract_stream_error(&json(r#"[1, 2]"#)), "詳細不明");
}

#[test]
fn chat_pointer_does_not_index_objects_by_number_incorrectly() {
    assert_eq!(
        extract_chat_answer(&json(r#"{"choices":{"0":{"message":{"content":"obj"}}}}"#)).as_deref(),
        Some("obj")
    );
    assert!(extract_chat_answer(&json(r#"{"choices":[{"message":{"content":5}}]}"#)).is_none());
}

#[test]
fn non_streaming_answers() {
    assert_eq!(
        parse_non_streaming_answer(r#"{"output_text":"standard answer"}"#, ApiFormat::Responses),
        Ok("standard answer".to_owned())
    );
    assert_eq!(
        parse_non_streaming_answer(
            r#"{"choices":[{"finish_reason":"stop","message":{"role":"assistant","content":"deep answer"}}]}"#,
            ApiFormat::Chat
        ),
        Ok("deep answer".to_owned())
    );
    assert_eq!(
        parse_non_streaming_answer(r#"{"choices":[]}"#, ApiFormat::Chat),
        Err("Grok上流APIのレスポンスから回答を取得できませんでした: {\"choices\":[]}".to_owned())
    );
    let invalid = parse_non_streaming_answer("<html>", ApiFormat::Chat).unwrap_err();
    assert!(invalid.starts_with("Grok上流APIが不正なJSONを返しました: "));
}

#[test]
fn parsed_body_errors_quote_truncated_body() {
    let body = "x".repeat(1001);
    let result = answer_from_parsed_body(&body, ApiFormat::Responses, Ok(json("{}")));
    let expected = format!(
        "Grok上流APIのレスポンスから回答を取得できませんでした: {}…",
        "x".repeat(1000)
    );
    assert_eq!(result, Err(expected));
    assert_eq!(
        answer_from_parsed_body("b", ApiFormat::Chat, Err("bad".to_owned())),
        Err("Grok上流APIが不正なJSONを返しました: bad".to_owned())
    );
}

#[test]
fn parse_errors_are_dispatched_by_event_name() {
    let mut answer = String::new();
    assert_eq!(
        dispatch_stream_event(ApiFormat::Chat, "ping", Err("x".to_owned()), &mut answer),
        Ok(StreamControl::Continue)
    );
    assert_eq!(
        dispatch_stream_event(ApiFormat::Chat, "message", Err("x".to_owned()), &mut answer),
        Err("Grok上流APIが不正なストリームイベントを返しました: x".to_owned())
    );
}

#[test]
fn finished_streams_need_an_answer() {
    assert_eq!(finish_streaming_answer("回答".to_owned()), Ok("回答".to_owned()));
    assert_eq!(
        finish_streaming_answer(" \n".to_owned()),
        Err("Grok上流APIのストリームから回答を取得できませんでした".to_owned())
    );
}

#[test]
fn recognizes_event_streams_and_status_errors() {
    assert!(is_event_stream(Some("text/event-stream; charset=utf-8")));
    assert!(!is_event_stream(Some("application/json")));
    assert!(!is_event_stream(None));
    assert_eq!(
        upstream_status_error("429 Too Many Requests", "slow down"),
        "Grok上流APIがHTTP 429 Too Many Requestsを返しました: slow down"
    );
}

#[test]
fn parse_keeps_structure() {
    match json(r#"{"a":[null,true,1.5,"s"]}"#) {
        Json::Object(members) => {
            assert_eq!(members.len(), 1);
            assert_eq!(members[0].0, "a");
            match &members[0].1 {
                Json::Array(items) => {
                    assert!(matches!(items[0], Json::Null));
                    assert!(matches!(items[1], Json::Bool(true)));
                    assert!(matches!(&items[2], Json::Number(n) if n == "1.5"));
                    assert!(matches!(&items[3], Json::Str(s) if s == "s"));
                }
                _ => panic!("expected an array"),
            }
        }
        _ => panic!("expected an object"),
    }
    assert!(Json::parse("{").is_err());
}
