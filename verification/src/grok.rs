//! Requests to a Grok-compatible upstream and the reading of its replies.
use vstd::prelude::*;
use crate::json::{
    get, is_present_non_null, pointer, str_of, token_views, Json, json_parse_result, parse_view,
};
use crate::text::{chars_of, has_prefix, is_blank, str_has_prefix, str_is_blank, trim, trim_str};

verus! {

/// The upstream model of the standard search; users cannot change it.
pub const FAST_MODEL: &'static str = "grok-4.3";

/// The upstream model shared by the deep and the ultra search.
pub const DEEP_MODEL: &'static str = "grok-4.20-multi-agent-0309";

/// The reasoning effort requested by the ultra search only.
pub const ULTRA_REASONING_EFFORT: &'static str = "xhigh";

/// Fixed instructions of the standard search. They are in English and ask
/// for an answer in the language of the query.
pub const FAST_INSTRUCTIONS: &'static str = "You are a web search assistant. Search the web and X when relevant. Provide an accurate and concise answer in the same language as the user's query. Include direct source URLs whenever available. Never fabricate sources, URLs, or claims. If no reliable information is available, clearly state that no reliable information was found and briefly suggest how to verify it. Never return an empty response.";

/// Fixed instructions of the deep search.
pub const DEEP_INSTRUCTIONS: &'static str = "You are a deep research assistant. Conduct a comprehensive search of the web and X when relevant, and cross-check multiple reliable sources. Provide a detailed and well-structured answer in the same language as the user's query. Include direct source URLs whenever available, distinguish confirmed facts from uncertainty, and never fabricate sources, URLs, or claims. If no reliable information is available, clearly state that no reliable information was found and explain how to verify it. Never return an empty response.";

/// Fixed instructions of the ultra search, the strictest of the three.
pub const ULTRA_INSTRUCTIONS: &'static str = "You are an exhaustive research assistant operating at maximum rigor. Search the web and X extensively, gather every relevant primary source, and cross-verify each material claim against at least two independent reliable sources. Decompose the question into sub-questions, investigate each one, and reconcile conflicting evidence explicitly. Provide an exhaustive, well-structured answer in the same language as the user's query, organized with clear headings, and state the reasoning behind each conclusion. Include direct source URLs for every substantive claim, note publication dates when recency matters, and clearly separate confirmed facts, contested points, and your own inference. Never fabricate sources, URLs, or claims, and never present speculation as fact. If no reliable information is available, clearly state that no reliable information was found and explain in detail how to verify it. Never return an empty response.";

/// The `Accept` header sent upstream: a server that ignores the stream
/// request may answer with plain JSON, so both are accepted.
pub const ACCEPT_VALUE: &'static str = "text/event-stream, application/json";

/// How many characters of an upstream body an error message quotes.
pub const ERROR_BODY_LIMIT: usize = 1000;

/// The request format that an upstream speaks.
#[derive(Debug, Clone, Copy, PartialEq, Eq, Structural)]
pub enum ApiFormat {
    /// The Responses API (`input`, `instructions`).
    Responses,
    /// The Chat Completions API (`messages`).
    Chat,
}

/// The three search levels offered to MCP clients.
#[derive(Debug, Clone, Copy, PartialEq, Eq, Structural)]
pub enum SearchMode {
    Standard,
    Deep,
    Ultra,
}

/// What a search level sends upstream.
#[derive(Debug, Clone, Copy)]
pub struct SearchSettings {
    /// Whether the deep upstream (rather than the standard one) is called.
    pub use_deep_upstream: bool,
    pub model: &'static str,
    pub instructions: &'static str,
    pub reasoning_effort: Option<&'static str>,
}

/// The upstream, model, instructions and reasoning effort of each search
/// level: the standard search calls the standard upstream with the fast
/// model; the deep and the ultra search call the deep upstream with the deep
/// model, and only the ultra search asks for maximal reasoning.
pub fn search_settings(mode: SearchMode) -> (s: SearchSettings)
    ensures
        s.use_deep_upstream == (mode != SearchMode::Standard),
        s.model == if mode == SearchMode::Standard {
            FAST_MODEL
        } else {
            DEEP_MODEL
        },
        s.instructions == match mode {
            SearchMode::Standard => FAST_INSTRUCTIONS,
            SearchMode::Deep => DEEP_INSTRUCTIONS,
            SearchMode::Ultra => ULTRA_INSTRUCTIONS,
        },
        s.reasoning_effort == if mode == SearchMode::Ultra {
            Some(ULTRA_REASONING_EFFORT)
        } else {
            None::<&'static str>
        },
{
    match mode {
        SearchMode::Standard => SearchSettings {
            use_deep_upstream: false,
            model: FAST_MODEL,
            instructions: FAST_INSTRUCTIONS,
            reasoning_effort: None,
        },
        SearchMode::Deep => SearchSettings {
            use_deep_upstream: true,
            model: DEEP_MODEL,
            instructions: DEEP_INSTRUCTIONS,
            reasoning_effort: None,
        },
        SearchMode::Ultra => SearchSettings {
            use_deep_upstream: true,
            model: DEEP_MODEL,
            instructions: ULTRA_INSTRUCTIONS,
            reasoning_effort: Some(ULTRA_REASONING_EFFORT),
        },
    }
}

/// A Responses API request body.
#[derive(Debug)]
pub struct ResponsesRequest<'a> {
    pub model: &'static str,
    pub instructions: &'static str,
    pub input: &'a str,
    pub stream: bool,
    /// Sent only when set (the ultra search).
    pub reasoning_effort: Option<&'static str>,
}

/// One Chat Completions message.
#[derive(Debug)]
pub struct ChatMessage<'a> {
    pub role: &'static str,
    pub content: &'a str,
}

/// A Chat Completions request body.
#[derive(Debug)]
pub struct ChatRequest<'a> {
    pub model: &'static str,
    pub messages: Vec<ChatMessage<'a>>,
    pub stream: bool,
    /// Sent only when set (the ultra search).
    pub reasoning_effort: Option<&'static str>,
}

/// A request body in the format of the upstream.
#[derive(Debug)]
pub enum RequestPayload<'a> {
    Responses(ResponsesRequest<'a>),
    Chat(ChatRequest<'a>),
}

/// Builds the request body for an upstream of the given format. Streaming is
/// always requested; the instructions go in `instructions` (Responses) or in
/// a leading `system` message followed by the query as the `user` message
/// (Chat).
pub fn build_payload<'a>(
    format: ApiFormat,
    model: &'static str,
    instructions: &'static str,
    query: &'a str,
    reasoning_effort: Option<&'static str>,
) -> (p: RequestPayload<'a>)
    ensures
        format == ApiFormat::Responses ==> (p matches RequestPayload::Responses(r) && {
            &&& r.model == model
            &&& r.instructions == instructions
            &&& r.input == query
            &&& r.stream
            &&& r.reasoning_effort == reasoning_effort
        }),
        format == ApiFormat::Chat ==> (p matches RequestPayload::Chat(c) && {
            &&& c.model == model
            &&& c.messages@.len() == 2
            &&& c.messages@[0].role@ == "system"@
            &&& c.messages@[0].content@ == instructions@
            &&& c.messages@[1].role@ == "user"@
            &&& c.messages@[1].content == query
            &&& c.stream
            &&& c.reasoning_effort == reasoning_effort
        }),
{
    match format {
        ApiFormat::Responses => RequestPayload::Responses(
            ResponsesRequest { model, instructions, input: query, stream: true, reasoning_effort },
        ),
        ApiFormat::Chat => {
            let mut messages: Vec<ChatMessage<'a>> = Vec::new();
            messages.push(ChatMessage { role: "system", content: instructions });
            messages.push(ChatMessage { role: "user", content: query });
            RequestPayload::Chat(ChatRequest { model, messages, stream: true, reasoning_effort })
        },
    }
}

/// `text` cut to at most `max_chars` characters, with `…` appended when
/// something was cut.
pub open spec fn truncated(text: Seq<char>, max_chars: nat) -> Seq<char> {
    if text.len() > max_chars {
        text.take(max_chars as int) + "…"@
    } else {
        text
    }
}

/// Shortens `text` to `max_chars` characters (not bytes), marking the cut
/// with `…`.
pub fn truncate(text: &str, max_chars: usize) -> (r: String)
    ensures
        r@ == truncated(text@, max_chars as nat),
{
    let v = chars_of(text);
    if v.len() > max_chars {
        let mut r = String::from_str(text.substring_char(0, max_chars));
        r.append("…");
        r
    } else {
        String::from_str(text)
    }
}

/// The media type that marks a streamed (server-sent events) reply.
pub const EVENT_STREAM_TYPE: &'static str = "text/event-stream";

/// Whether a `Content-Type` header value announces an event stream.
pub fn is_event_stream(content_type: Option<&str>) -> (b: bool)
    ensures
        b == match content_type {
            Some(v) => has_prefix(v@, EVENT_STREAM_TYPE@),
            None => false,
        },
{
    match content_type {
        Some(v) => str_has_prefix(v, EVENT_STREAM_TYPE),
        None => false,
    }
}

/// The error reported when the upstream answers with a non-success status:
/// the status as displayed and the start of the body.
pub fn upstream_status_error(status: &str, body: &str) -> (m: String)
    ensures
        m@ == "Grok上流APIがHTTP "@ + status@ + "を返しました: "@ + truncated(
            body@,
            ERROR_BODY_LIMIT as nat,
        ),
{
    let mut m = String::from_str("Grok上流APIがHTTP ");
    m.append(status);
    m.append("を返しました: ");
    let t = truncate(body, ERROR_BODY_LIMIT);
    m.append(t.as_str());
    m
}

/// The text of an optional string, as an optional character sequence.
pub open spec fn opt_string_view(o: Option<String>) -> Option<Seq<char>> {
    match o {
        Some(s) => Some(s@),
        None => None,
    }
}

/// The view of a `Result` of two strings.
pub open spec fn result_view(r: Result<String, String>) -> Result<Seq<char>, Seq<char>> {
    match r {
        Ok(s) => Ok(s@),
        Err(e) => Err(e@),
    }
}

/// The text that a Responses output part contributes: its `text`, when the
/// part has no string `type` or has the type `output_text`.
pub open spec fn part_text(part: Json) -> Option<Seq<char>> {
    let selected = match str_of(get(part, "type"@)) {
        Some(kind) => kind == "output_text"@,
        None => true,
    };
    if selected {
        str_of(get(part, "text"@))
    } else {
        None
    }
}

/// The texts of the selected parts, in order.
pub open spec fn content_texts(parts: Seq<Json>) -> Seq<Seq<char>>
    decreases parts.len(),
{
    if parts.len() == 0 {
        Seq::<Seq<char>>::empty()
    } else {
        let prev = content_texts(parts.drop_last());
        match part_text(parts.last()) {
            Some(t) => prev.push(t),
            None => prev,
        }
    }
}

/// The `content` array of an output item (empty when there is none).
pub open spec fn content_parts(output: Json) -> Seq<Json> {
    match get(output, "content"@) {
        Some(Json::Array(parts)) => parts@,
        _ => Seq::<Json>::empty(),
    }
}

/// The texts of all output items, item after item.
pub open spec fn output_texts(outputs: Seq<Json>) -> Seq<Seq<char>>
    decreases outputs.len(),
{
    if outputs.len() == 0 {
        Seq::<Seq<char>>::empty()
    } else {
        output_texts(outputs.drop_last()) + content_texts(content_parts(outputs.last()))
    }
}

/// The texts joined with a line break between neighbours.
pub open spec fn join_lines(texts: Seq<Seq<char>>) -> Seq<char>
    decreases texts.len(),
{
    if texts.len() == 0 {
        Seq::<char>::empty()
    } else if texts.len() == 1 {
        texts[0]
    } else {
        join_lines(texts.drop_last()) + "\n"@ + texts.last()
    }
}

/// The answer in a Responses API reply: a non-blank top-level
/// `output_text`, or else the non-blank line-joined texts of the output parts.
pub open spec fn responses_answer(response: Json) -> Option<Seq<char>> {
    let top = str_of(get(response, "output_text"@));
    if top is Some && !is_blank(top->0) {
        top
    } else {
        match get(response, "output"@) {
            Some(Json::Array(outputs)) => {
                let text = join_lines(output_texts(outputs@));
                if is_blank(text) {
                    None
                } else {
                    Some(text)
                }
            },
            _ => None,
        }
    }
}

/// The pointer `/choices/0/message/content`.
pub open spec fn chat_content_path() -> Seq<Seq<char>> {
    seq!["choices"@, "0"@, "message"@, "content"@]
}

/// The answer in a Chat Completions reply: the non-blank content of the
/// first choice's message.
pub open spec fn chat_answer(response: Json) -> Option<Seq<char>> {
    let text = str_of(pointer(response, chat_content_path()));
    if text is Some && !is_blank(text->0) {
        text
    } else {
        None
    }
}

/// Appends the text of each selected part of `parts` to `text`.
fn append_content_texts(
    parts: &Vec<Json>,
    text: &mut String,
    any: &mut bool,
    Ghost(acc): Ghost<Seq<Seq<char>>>,
) -> (new_acc: Ghost<Seq<Seq<char>>>)
    requires
        old(text)@ == join_lines(acc),
        *old(any) == (acc.len() > 0),
    ensures
        new_acc@ == acc + content_texts(parts@),
        final(text)@ == join_lines(new_acc@),
        *final(any) == (new_acc@.len() > 0),
{
    let ghost mut cur = acc;
    let mut j: usize = 0;
    assert(parts@.take(0) =~= Seq::<Json>::empty());
    assert(acc + Seq::<Seq<char>>::empty() =~= acc);
    while j < parts.len()
        invariant
            j <= parts@.len(),
            cur == acc + content_texts(parts@.take(j as int)),
            text@ == join_lines(cur),
            *any == (cur.len() > 0),
        decreases parts.len() - j,
    {
        let part = &parts[j];
        assert(parts@.take(j + 1).drop_last() =~= parts@.take(j as int));
        assert(parts@.take(j + 1).last() == *part);
        let selected = match part.get("type") {
            Some(t) => match t.as_str() {
                Some(kind) => PartialEq::eq(kind, "output_text"),
                None => true,
            },
            None => true,
        };
        if selected {
            match part.get("text") {
                Some(t) => match t.as_str() {
                    Some(s) => {
                        if *any {
                            text.append("\n");
                        }
                        text.append(s);
                        *any = true;
                        proof {
                            assert((acc + content_texts(parts@.take(j as int))).push(s@) =~= acc
                                + content_texts(parts@.take(j as int)).push(s@));
                            assert(cur.push(s@).drop_last() =~= cur);
                            cur = cur.push(s@);
                        }
                    },
                    None => {},
                },
                None => {},
            }
        }
        j = j + 1;
    }
    assert(parts@.take(parts@.len() as int) =~= parts@);
    Ghost(cur)
}

/// Extracts the answer from a Responses API reply. Some compatible servers
/// put it in a top-level `output_text`; otherwise the texts of the
/// `output_text` parts of all output items are joined by line breaks. A blank
/// answer counts as none.
pub fn extract_responses_answer(response: &Json) -> (r: Option<String>)
    ensures
        opt_string_view(r) == responses_answer(*response),
{
    match response.get("output_text") {
        Some(t) => match t.as_str() {
            Some(s) => {
                if !str_is_blank(s) {
                    return Some(String::from_str(s));
                }
            },
            None => {},
        },
        None => {},
    }
    let outputs = match response.get("output") {
        Some(Json::Array(outputs)) => outputs,
        _ => return None,
    };
    let mut text = String::new();
    let mut any = false;
    let ghost mut acc: Seq<Seq<char>> = Seq::empty();
    let mut i: usize = 0;
    assert(outputs@.take(0) =~= Seq::<Json>::empty());
    while i < outputs.len()
        invariant
            i <= outputs@.len(),
            acc == output_texts(outputs@.take(i as int)),
            text@ == join_lines(acc),
            any == (acc.len() > 0),
        decreases outputs.len() - i,
    {
        let output = &outputs[i];
        assert(outputs@.take(i + 1).drop_last() =~= outputs@.take(i as int));
        assert(outputs@.take(i + 1).last() == *output);
        match output.get("content") {
            Some(Json::Array(parts)) => {
                let Ghost(next) = append_content_texts(parts, &mut text, &mut any, Ghost(acc));
                proof {
                    acc = next;
                }
            },
            _ => {
                assert(acc + Seq::<Seq<char>>::empty() =~= acc);
            },
        }
        i = i + 1;
    }
    assert(outputs@.take(outputs@.len() as int) =~= outputs@);
    if str_is_blank(text.as_str()) {
        None
    } else {
        Some(text)
    }
}

/// Extracts the answer from a Chat Completions reply: the content of the
/// first choice's message, unless it is blank.
pub fn extract_chat_answer(response: &Json) -> (r: Option<String>)
    ensures
        opt_string_view(r) == chat_answer(*response),
{
    let path: [&str; 4] = ["choices", "0", "message", "content"];
    assert(token_views(path@) =~= chat_content_path());
    match response.pointer(&path) {
        Some(c) => match c.as_str() {
            Some(s) => {
                if str_is_blank(s) {
                    None
                } else {
                    Some(String::from_str(s))
                }
            },
            None => None,
        },
        None => None,
    }
}

/// The prefix of the error reported when the upstream stops a request.
pub const UNFINISHED_PREFIX: &'static str = "Grok上流APIの処理が完了しませんでした: ";

/// The prefix of the error reported for a stream event that is not JSON.
pub const INVALID_EVENT_PREFIX: &'static str = "Grok上流APIが不正なストリームイベントを返しました: ";

/// The prefix of the error reported for a reply body that is not JSON.
pub const INVALID_JSON_PREFIX: &'static str = "Grok上流APIが不正なJSONを返しました: ";

/// The prefix of the error reported for a reply without an answer.
pub const NO_ANSWER_PREFIX: &'static str = "Grok上流APIのレスポンスから回答を取得できませんでした: ";

/// The error reported when a stream ends without a non-blank answer.
pub const EMPTY_STREAM_ERROR: &'static str = "Grok上流APIのストリームから回答を取得できませんでした";

/// The detail reported when an error event names no reason.
pub const UNKNOWN_DETAIL: &'static str = "詳細不明";

/// The places where an error event may carry its reason, in the order in
/// which they are tried.
pub open spec fn error_paths() -> Seq<Seq<Seq<char>>> {
    seq![
        seq!["response"@, "error"@, "message"@],
        seq!["response"@, "incomplete_details"@, "reason"@],
        seq!["error"@, "message"@],
        seq!["message"@],
    ]
}

/// The first reason found along `paths`, or the unknown-detail text.
pub open spec fn first_reason(event: Json, paths: Seq<Seq<Seq<char>>>) -> Seq<char>
    decreases paths.len(),
{
    if paths.len() == 0 {
        UNKNOWN_DETAIL@
    } else {
        match str_of(pointer(event, paths[0])) {
            Some(reason) => reason,
            None => first_reason(event, paths.drop_first()),
        }
    }
}

/// The reason that an error event gives.
pub open spec fn stream_error_detail(event: Json) -> Seq<char> {
    first_reason(event, error_paths())
}

/// Looks up the text at one pointer.
fn str_at<'a>(event: &'a Json, tokens: &[&str]) -> (r: Option<&'a str>)
    ensures
        match r {
            Some(s) => str_of(pointer(*event, token_views(tokens@))) == Some(s@),
            None => str_of(pointer(*event, token_views(tokens@))) is None,
        },
{
    match event.pointer(tokens) {
        Some(v) => v.as_str(),
        None => None,
    }
}

/// The reason that an error event gives: the first of
/// `/response/error/message`, `/response/incomplete_details/reason`,
/// `/error/message` and `/message` that holds a string.
pub fn extract_stream_error(event: &Json) -> (r: String)
    ensures
        r@ == stream_error_detail(*event),
{
    let p0: [&str; 3] = ["response", "error", "message"];
    let p1: [&str; 3] = ["response", "incomplete_details", "reason"];
    let p2: [&str; 2] = ["error", "message"];
    let p3: [&str; 1] = ["message"];
    let ghost paths = error_paths();
    proof {
        reveal_with_fuel(first_reason, 5);
    }
    assert(token_views(p0@) =~= paths[0]);
    assert(token_views(p1@) =~= paths[1]);
    assert(token_views(p2@) =~= paths[2]);
    assert(token_views(p3@) =~= paths[3]);
    assert(paths.drop_first()[0] == paths[1]);
    assert(paths.drop_first().drop_first()[0] == paths[2]);
    assert(paths.drop_first().drop_first().drop_first()[0] == paths[3]);
    assert(paths.drop_first().drop_first().drop_first().drop_first() =~= Seq::<
        Seq<Seq<char>>,
    >::empty());
    if let Some(s) = str_at(event, &p0) {
        return String::from_str(s);
    }
    if let Some(s) = str_at(event, &p1) {
        return String::from_str(s);
    }
    if let Some(s) = str_at(event, &p2) {
        return String::from_str(s);
    }
    if let Some(s) = str_at(event, &p3) {
        return String::from_str(s);
    }
    String::from_str(UNKNOWN_DETAIL)
}

/// Whether reading a stream goes on after an event.
#[derive(Debug, Clone, Copy, PartialEq, Eq, Structural)]
pub enum StreamControl {
    Continue,
    Completed,
}

/// The outcome of one stream event, as a value of the specification.
pub enum EventOutcome {
    Continue,
    Completed,
    Failed(Seq<char>),
}

/// The outcome that a processing result stands for.
pub open spec fn outcome(r: Result<StreamControl, String>) -> EventOutcome {
    match r {
        Ok(StreamControl::Continue) => EventOutcome::Continue,
        Ok(StreamControl::Completed) => EventOutcome::Completed,
        Err(e) => EventOutcome::Failed(e@),
    }
}

/// The failure reported for an error event.
pub open spec fn unfinished(event: Json) -> EventOutcome {
    EventOutcome::Failed(UNFINISHED_PREFIX@ + stream_error_detail(event))
}

/// One Responses API stream event: its outcome and the answer after it.
/// Deltas are appended; a `done` text fills only an empty answer; the
/// completed response replaces the answer when it holds one; failures,
/// incomplete responses and errors stop the stream with the reason.
pub open spec fn responses_step(event: Json, event_name: Seq<char>, answer: Seq<char>) -> (
    EventOutcome,
    Seq<char>,
) {
    let kind = match str_of(get(event, "type"@)) {
        Some(k) => k,
        None => event_name,
    };
    if kind == "response.output_text.delta"@ {
        (
            EventOutcome::Continue,
            match str_of(get(event, "delta"@)) {
                Some(d) => answer + d,
                None => answer,
            },
        )
    } else if kind == "response.output_text.done"@ {
        (
            EventOutcome::Continue,
            if answer.len() == 0 && str_of(get(event, "text"@)) is Some {
                str_of(get(event, "text"@))->0
            } else {
                answer
            },
        )
    } else if kind == "response.completed"@ {
        let response = match get(event, "response"@) {
            Some(r) => r,
            None => event,
        };
        (
            EventOutcome::Completed,
            match responses_answer(response) {
                Some(t) => t,
                None => answer,
            },
        )
    } else if kind == "response.failed"@ || kind == "response.incomplete"@ || kind == "error"@ {
        (unfinished(event), answer)
    } else {
        (EventOutcome::Continue, answer)
    }
}

/// One Chat Completions stream event: a non-null `error` stops the stream;
/// otherwise the first choice's delta content is appended, and a non-null
/// `finish_reason` completes the stream.
pub open spec fn chat_step(event: Json, answer: Seq<char>) -> (EventOutcome, Seq<char>) {
    if is_present_non_null(get(event, "error"@)) {
        (unfinished(event), answer)
    } else {
        match get(event, "choices"@) {
            Some(Json::Array(choices)) => if choices@.len() > 0 {
                let choice = choices@[0];
                let next = match str_of(pointer(choice, seq!["delta"@, "content"@])) {
                    Some(d) => answer + d,
                    None => answer,
                };
                if is_present_non_null(get(choice, "finish_reason"@)) {
                    (EventOutcome::Completed, next)
                } else {
                    (EventOutcome::Continue, next)
                }
            } else {
                (EventOutcome::Continue, answer)
            },
            _ => (EventOutcome::Continue, answer),
        }
    }
}

/// Applies a Responses API stream event to the answer read so far.
pub fn process_responses_event(event: &Json, event_name: &str, answer: &mut String) -> (r: Result<
    StreamControl,
    String,
>)
    ensures
        (outcome(r), final(answer)@) == responses_step(*event, event_name@, old(answer)@),
{
    let kind: &str = match event.get("type") {
        Some(t) => match t.as_str() {
            Some(k) => k,
            None => event_name,
        },
        None => event_name,
    };
    if PartialEq::eq(kind, "response.output_text.delta") {
        match event.get("delta") {
            Some(d) => match d.as_str() {
                Some(delta) => answer.append(delta),
                None => {},
            },
            None => {},
        }
        Ok(StreamControl::Continue)
    } else if PartialEq::eq(kind, "response.output_text.done") {
        // Sent once per output part: text that arrived as deltas is kept.
        if answer.as_str().unicode_len() == 0 {
            match event.get("text") {
                Some(t) => match t.as_str() {
                    Some(text) => {
                        answer.append(text);
                        assert(old(answer)@ =~= Seq::<char>::empty());
                        assert(answer@ =~= text@);
                    },
                    None => {},
                },
                None => {},
            }
        }
        Ok(StreamControl::Continue)
    } else if PartialEq::eq(kind, "response.completed") {
        let response = match event.get("response") {
            Some(r) => r,
            None => event,
        };
        match extract_responses_answer(response) {
            Some(text) => {
                *answer = text;
            },
            None => {},
        }
        Ok(StreamControl::Completed)
    } else if PartialEq::eq(kind, "response.failed") || PartialEq::eq(kind, "response.incomplete")
        || PartialEq::eq(kind, "error") {
        Err(unfinished_error(event))
    } else {
        Ok(StreamControl::Continue)
    }
}

/// The error reported for an error event.
fn unfinished_error(event: &Json) -> (e: String)
    ensures
        EventOutcome::Failed(e@) == unfinished(*event),
{
    let mut e = String::from_str(UNFINISHED_PREFIX);
    let detail = extract_stream_error(event);
    e.append(detail.as_str());
    e
}

/// Applies a Chat Completions stream event to the answer read so far. Some
/// servers send `"error": null`, which is not an error.
pub fn process_chat_event(event: &Json, answer: &mut String) -> (r: Result<StreamControl, String>)
    ensures
        (outcome(r), final(answer)@) == chat_step(*event, old(answer)@),
{
    match event.get("error") {
        Some(e) => {
            if !e.is_null() {
                return Err(unfinished_error(event));
            }
        },
        None => {},
    }
    let choice = match event.get("choices") {
        Some(Json::Array(choices)) => {
            if choices.len() == 0 {
                return Ok(StreamControl::Continue);
            }
            &choices[0]
        },
        _ => return Ok(StreamControl::Continue),
    };
    let path: [&str; 2] = ["delta", "content"];
    assert(token_views(path@) =~= seq!["delta"@, "content"@]);
    match choice.pointer(&path) {
        Some(d) => match d.as_str() {
            Some(delta) => answer.append(delta),
            None => {},
        },
        None => {},
    }
    let finished = match choice.get("finish_reason") {
        Some(reason) => !reason.is_null(),
        None => false,
    };
    if finished {
        Ok(StreamControl::Completed)
    } else {
        Ok(StreamControl::Continue)
    }
}

/// A stream event whose data has been parsed (or failed to parse). An event
/// named `ping` whose data is not JSON is a keep-alive and is skipped.
pub open spec fn parsed_step(
    format: ApiFormat,
    event_name: Seq<char>,
    parsed: Result<Json, Seq<char>>,
    answer: Seq<char>,
) -> (EventOutcome, Seq<char>) {
    match parsed {
        Ok(event) => match format {
            ApiFormat::Responses => responses_step(event, event_name, answer),
            ApiFormat::Chat => chat_step(event, answer),
        },
        Err(error) => if event_name == "ping"@ {
            (EventOutcome::Continue, answer)
        } else {
            (EventOutcome::Failed(INVALID_EVENT_PREFIX@ + error), answer)
        },
    }
}

/// One server-sent event of an upstream stream: blank data is skipped,
/// `[DONE]` completes the stream, anything else is parsed as JSON and applied
/// in the format of the upstream.
pub open spec fn stream_step(
    format: ApiFormat,
    event_name: Seq<char>,
    data: Seq<char>,
    answer: Seq<char>,
) -> (EventOutcome, Seq<char>) {
    let d = trim(data);
    if d.len() == 0 {
        (EventOutcome::Continue, answer)
    } else if d == "[DONE]"@ {
        (EventOutcome::Completed, answer)
    } else {
        parsed_step(format, event_name, json_parse_result(d), answer)
    }
}

/// Applies a stream event whose data has already been parsed.
pub fn dispatch_stream_event(
    format: ApiFormat,
    event_name: &str,
    parsed: Result<Json, String>,
    answer: &mut String,
) -> (r: Result<StreamControl, String>)
    ensures
        (outcome(r), final(answer)@) == parsed_step(
            format,
            event_name@,
            parse_view(parsed),
            old(answer)@,
        ),
{
    match parsed {
        Ok(event) => match format {
            ApiFormat::Responses => process_responses_event(&event, event_name, answer),
            ApiFormat::Chat => process_chat_event(&event, answer),
        },
        Err(error) => {
            if PartialEq::eq(event_name, "ping") {
                Ok(StreamControl::Continue)
            } else {
                let mut e = String::from_str(INVALID_EVENT_PREFIX);
                e.append(error.as_str());
                Err(e)
            }
        },
    }
}

/// Applies one server-sent event (its name and data) of an upstream stream
/// to the answer read so far, and tells whether the stream goes on.
pub fn process_stream_event(
    format: ApiFormat,
    event_name: &str,
    data: &str,
    answer: &mut String,
) -> (r: Result<StreamControl, String>)
    ensures
        (outcome(r), final(answer)@) == stream_step(format, event_name@, data@, old(answer)@),
{
    let data = trim_str(data);
    if data.unicode_len() == 0 {
        return Ok(StreamControl::Continue);
    }
    if PartialEq::eq(data, "[DONE]") {
        return Ok(StreamControl::Completed);
    }
    let parsed = Json::parse(data);
    dispatch_stream_event(format, event_name, parsed, answer)
}

/// The answer of a reply, in the format of the upstream.
pub open spec fn answer_of(format: ApiFormat, response: Json) -> Option<Seq<char>> {
    match format {
        ApiFormat::Responses => responses_answer(response),
        ApiFormat::Chat => chat_answer(response),
    }
}

/// The result for a non-streamed reply body whose parse outcome is `parsed`.
pub open spec fn body_answer(
    body: Seq<char>,
    format: ApiFormat,
    parsed: Result<Json, Seq<char>>,
) -> Result<Seq<char>, Seq<char>> {
    match parsed {
        Err(error) => Err(INVALID_JSON_PREFIX@ + error),
        Ok(response) => match answer_of(format, response) {
            Some(text) => Ok(text),
            None => Err(NO_ANSWER_PREFIX@ + truncated(body, ERROR_BODY_LIMIT as nat)),
        },
    }
}

/// The result for a non-streamed reply body that has already been parsed.
pub fn answer_from_parsed_body(body: &str, format: ApiFormat, parsed: Result<Json, String>) -> (r:
    Result<String, String>)
    ensures
        result_view(r) == body_answer(body@, format, parse_view(parsed)),
{
    match parsed {
        Err(error) => {
            let mut e = String::from_str(INVALID_JSON_PREFIX);
            e.append(error.as_str());
            Err(e)
        },
        Ok(response) => {
            let answer = match format {
                ApiFormat::Responses => extract_responses_answer(&response),
                ApiFormat::Chat => extract_chat_answer(&response),
            };
            match answer {
                Some(text) => Ok(text),
                None => {
                    let mut e = String::from_str(NO_ANSWER_PREFIX);
                    let t = truncate(body, ERROR_BODY_LIMIT);
                    e.append(t.as_str());
                    Err(e)
                },
            }
        },
    }
}

/// Reads the answer from a reply that came as one JSON body (a compatible
/// server may ignore the stream request).
pub fn parse_non_streaming_answer(body: &str, format: ApiFormat) -> (r: Result<String, String>)
    ensures
        result_view(r) == body_answer(body@, format, json_parse_result(body@)),
{
    let parsed = Json::parse(body);
    answer_from_parsed_body(body, format, parsed)
}

/// The result of a stream once it has ended: the answer read, unless it is
/// blank.
pub open spec fn streamed_result(answer: Seq<char>) -> Result<Seq<char>, Seq<char>> {
    if is_blank(answer) {
        Err(EMPTY_STREAM_ERROR@)
    } else {
        Ok(answer)
    }
}

/// Ends the reading of a stream: a blank answer is an error.
pub fn finish_streaming_answer(answer: String) -> (r: Result<String, String>)
    ensures
        result_view(r) == streamed_result(answer@),
{
    if str_is_blank(answer.as_str()) {
        Err(String::from_str(EMPTY_STREAM_ERROR))
    } else {
        Ok(answer)
    }
}

/// An answer that the library hands back is never blank: not from a
/// Responses reply, not from a Chat reply, not from a reply body, and not
/// from a finished stream.
pub proof fn law_answers_are_never_blank(
    format: ApiFormat,
    response: Json,
    body: Seq<char>,
    parsed: Result<Json, Seq<char>>,
    streamed: Seq<char>,
)
    ensures
        answer_of(format, response) matches Some(t) ==> !is_blank(t),
        body_answer(body, format, parsed) matches Ok(t) ==> !is_blank(t),
        streamed_result(streamed) matches Ok(t) ==> !is_blank(t),
{
}

/// An event that stops the stream with an error leaves the answer as it was.
pub proof fn law_failed_event_keeps_answer(
    format: ApiFormat,
    event_name: Seq<char>,
    data: Seq<char>,
    answer: Seq<char>,
)
    ensures
        stream_step(format, event_name, data, answer).0 is Failed ==> stream_step(
            format,
            event_name,
            data,
            answer,
        ).1 == answer,
{
}

/// While a stream goes on, the answer only grows: an event that lets the
/// stream continue keeps what was read before as a prefix.
pub proof fn law_continuing_stream_only_appends(
    format: ApiFormat,
    event_name: Seq<char>,
    data: Seq<char>,
    answer: Seq<char>,
)
    ensures
        stream_step(format, event_name, data, answer).0 is Continue ==> has_prefix(
            stream_step(format, event_name, data, answer).1,
            answer,
        ),
{
    let (o, next) = stream_step(format, event_name, data, answer);
    if o is Continue {
        assert(next.take(answer.len() as int) =~= answer);
    }
}

/// The kind of a Responses stream event: its `type`, or else the event name.
pub open spec fn responses_kind(event: Json, event_name: Seq<char>) -> Seq<char> {
    match str_of(get(event, "type"@)) {
        Some(k) => k,
        None => event_name,
    }
}

/// A text delta is appended to the answer and the stream goes on.
pub proof fn law_delta_appends(event: Json, event_name: Seq<char>, answer: Seq<char>, delta: Seq<char>)
    requires
        responses_kind(event, event_name) == "response.output_text.delta"@,
        str_of(get(event, "delta"@)) == Some(delta),
    ensures
        responses_step(event, event_name, answer) == (EventOutcome::Continue, answer + delta),
{
}

/// A `done` text never overwrites text that arrived before it.
pub proof fn law_done_keeps_accumulated_answer(event: Json, event_name: Seq<char>, answer: Seq<char>)
    requires
        responses_kind(event, event_name) == "response.output_text.done"@,
        answer.len() > 0,
    ensures
        responses_step(event, event_name, answer) == (EventOutcome::Continue, answer),
{
    reveal_strlit("response.output_text.done");
    reveal_strlit("response.output_text.delta");
    assert("response.output_text.done"@.len() != "response.output_text.delta"@.len());
}

/// The answer held by a completed response is the final answer, whatever was
/// read before.
pub proof fn law_completed_response_is_final(
    event: Json,
    event_name: Seq<char>,
    answer: Seq<char>,
    text: Seq<char>,
)
    requires
        responses_kind(event, event_name) == "response.completed"@,
        responses_answer(
            match get(event, "response"@) {
                Some(r) => r,
                None => event,
            },
        ) == Some(text),
    ensures
        responses_step(event, event_name, answer) == (EventOutcome::Completed, text),
{
    reveal_strlit("response.completed");
    reveal_strlit("response.output_text.done");
    reveal_strlit("response.output_text.delta");
    assert("response.completed"@.len() == 18);
    assert("response.output_text.done"@.len() == 25);
    assert("response.output_text.delta"@.len() == 26);
    assert("response.completed"@ != "response.output_text.done"@);
    assert("response.completed"@ != "response.output_text.delta"@);
}

/// A Chat delta is appended to the answer; a finish reason ends the stream.
pub proof fn law_chat_delta_appends(event: Json, answer: Seq<char>, choice: Json, delta: Seq<char>)
    requires
        !is_present_non_null(get(event, "error"@)),
        get(event, "choices"@) matches Some(Json::Array(choices)) && choices@.len() > 0
            && choices@[0] == choice,
        str_of(pointer(choice, seq!["delta"@, "content"@])) == Some(delta),
    ensures
        chat_step(event, answer).1 == answer + delta,
        chat_step(event, answer).0 == if is_present_non_null(get(choice, "finish_reason"@)) {
            EventOutcome::Completed
        } else {
            EventOutcome::Continue
        },
{
}

/// Every other Responses event kind (`response.created`,
/// `response.in_progress`, `response.output_item.added`, …) is skipped: the
/// stream goes on and the answer is untouched.
pub proof fn law_other_responses_events_are_skipped(
    event: Json,
    event_name: Seq<char>,
    answer: Seq<char>,
)
    requires
        responses_kind(event, event_name) != "response.output_text.delta"@,
        responses_kind(event, event_name) != "response.output_text.done"@,
        responses_kind(event, event_name) != "response.completed"@,
        responses_kind(event, event_name) != "response.failed"@,
        responses_kind(event, event_name) != "response.incomplete"@,
        responses_kind(event, event_name) != "error"@,
    ensures
        responses_step(event, event_name, answer) == (EventOutcome::Continue, answer),
{
}

/// Only `response.failed`, `response.incomplete` and `error` events stop a
/// Responses stream with an error.
pub proof fn law_only_failure_kinds_fail(event: Json, event_name: Seq<char>, answer: Seq<char>)
    ensures
        responses_step(event, event_name, answer).0 is Failed <==> (responses_kind(
            event,
            event_name,
        ) == "response.failed"@ || responses_kind(event, event_name) == "response.incomplete"@
            || responses_kind(event, event_name) == "error"@),
{
    reveal_strlit("response.completed");
    reveal_strlit("response.output_text.done");
    reveal_strlit("response.output_text.delta");
    reveal_strlit("response.failed");
    reveal_strlit("response.incomplete");
    reveal_strlit("error");
    assert("response.failed"@.len() == 15);
    assert("response.incomplete"@.len() == 19);
    assert("error"@.len() == 5);
    assert("response.completed"@.len() == 18);
    assert("response.output_text.done"@.len() == 25);
    assert("response.output_text.delta"@.len() == 26);
}

/// A completed event keeps the text read so far unless its response holds
/// an answer: the answer afterwards is the response's answer or the previous
/// one, and the stream is complete.
pub proof fn law_completed_keeps_answer_without_text(
    event: Json,
    event_name: Seq<char>,
    answer: Seq<char>,
    response: Json,
)
    requires
        responses_kind(event, event_name) == "response.completed"@,
        response == match get(event, "response"@) {
            Some(r) => r,
            None => event,
        },
    ensures
        responses_step(event, event_name, answer).0 == EventOutcome::Completed,
        responses_answer(response) is None ==> responses_step(event, event_name, answer).1
            == answer,
        responses_answer(response) matches Some(t) ==> responses_step(event, event_name, answer).1
            == t,
{
    reveal_strlit("response.completed");
    reveal_strlit("response.output_text.done");
    reveal_strlit("response.output_text.delta");
    assert("response.completed"@.len() == 18);
    assert("response.output_text.done"@.len() == 25);
    assert("response.output_text.delta"@.len() == 26);
}

/// The first element of a Chat chunk's `choices` array, if any.
pub open spec fn first_choice(event: Json) -> Option<Json> {
    match get(event, "choices"@) {
        Some(Json::Array(choices)) => if choices@.len() > 0 {
            Some(choices@[0])
        } else {
            None
        },
        _ => None,
    }
}

/// For a Chat chunk without an error, the stream completes exactly when the
/// first choice has a non-null `finish_reason`, whatever its delta holds; a
/// chunk without string content leaves the answer as it was, and a chunk
/// without choices is skipped.
pub proof fn law_chat_outcome_follows_finish_reason(event: Json, answer: Seq<char>)
    requires
        !is_present_non_null(get(event, "error"@)),
    ensures
        !(chat_step(event, answer).0 is Failed),
        first_choice(event) matches Some(choice) ==> (chat_step(event, answer).0 is Completed
            <==> is_present_non_null(get(choice, "finish_reason"@))),
        first_choice(event) matches Some(choice) ==> (str_of(
            pointer(choice, seq!["delta"@, "content"@]),
        ) is None ==> chat_step(event, answer).1 == answer),
        first_choice(event) is None ==> chat_step(event, answer) == (
            EventOutcome::Continue,
            answer,
        ),
{
}

/// The content parts of an output item are those of its `content` array, and
/// none when it has no such array.
pub proof fn law_content_parts(item: Json)
    ensures
        get(item, "content"@) matches Some(Json::Array(parts)) ==> content_parts(item) == parts@,
        !(get(item, "content"@) matches Some(Json::Array(_))) ==> content_parts(item)
            == Seq::<Json>::empty(),
        content_texts(Seq::<Json>::empty()) == Seq::<Seq<char>>::empty(),
{
}

/// The texts of output items are collected item after item: an item adds
/// the texts of its own content, so an item without content (a tool call)
/// adds nothing and hides none of the items after it.
pub proof fn law_output_texts_item_by_item(items: Seq<Json>, item: Json)
    ensures
        output_texts(items.push(item)) == output_texts(items) + content_texts(content_parts(item)),
        output_texts(seq![item] + items) == content_texts(content_parts(item)) + output_texts(
            items,
        ),
        !(get(item, "content"@) matches Some(Json::Array(_))) ==> output_texts(items.push(item))
            == output_texts(items) && output_texts(seq![item] + items) == output_texts(items),
    decreases items.len(),
{
    assert(items.push(item).drop_last() =~= items);
    let c = content_texts(content_parts(item));
    let pre = seq![item] + items;
    if items.len() == 0 {
        assert(pre =~= seq![item]);
        assert(pre.drop_last() =~= Seq::<Json>::empty());
        assert(pre.last() == item);
        assert(output_texts(pre) == output_texts(pre.drop_last()) + c);
        assert(Seq::<Seq<char>>::empty() + c =~= c);
        assert(c + Seq::<Seq<char>>::empty() =~= c);
    } else {
        law_output_texts_item_by_item(items.drop_last(), item);
        assert(pre.drop_last() =~= seq![item] + items.drop_last());
        assert(pre.last() == items.last());
        let l = content_texts(content_parts(items.last()));
        assert(output_texts(pre) == output_texts(pre.drop_last()) + l);
        assert(output_texts(items) == output_texts(items.drop_last()) + l);
        assert(c + output_texts(items.drop_last()) + l =~= c + (output_texts(items.drop_last())
            + l));
    }
    if !(get(item, "content"@) matches Some(Json::Array(_))) {
        assert(output_texts(items) + Seq::<Seq<char>>::empty() =~= output_texts(items));
        assert(Seq::<Seq<char>>::empty() + output_texts(items) =~= output_texts(items));
    }
}

/// A content part contributes its `text` exactly when that is a string and
/// the part's `type`, if a string, is `output_text`.
pub proof fn law_part_text(part: Json, text: Seq<char>)
    ensures
        part_text(part) == Some(text) <==> (str_of(get(part, "text"@)) == Some(text) && (str_of(
            get(part, "type"@),
        ) is None || str_of(get(part, "type"@)) == Some("output_text"@))),
        str_of(get(part, "text"@)) is None ==> part_text(part) is None,
{
}

/// The texts of content parts are collected part after part, and a part
/// without a text adds nothing.
pub proof fn law_content_texts_part_by_part(parts: Seq<Json>, part: Json)
    ensures
        content_texts(parts.push(part)) == match part_text(part) {
            Some(t) => content_texts(parts) + seq![t],
            None => content_texts(parts),
        },
{
    assert(parts.push(part).drop_last() =~= parts);
    if let Some(t) = part_text(part) {
        assert(content_texts(parts).push(t) =~= content_texts(parts) + seq![t]);
    }
}

/// Joining one more text adds a line break before it, unless it is the
/// first.
pub proof fn law_join_lines_push(texts: Seq<Seq<char>>, t: Seq<char>)
    ensures
        join_lines(texts.push(t)) == if texts.len() == 0 {
            t
        } else {
            join_lines(texts) + "\n"@ + t
        },
{
    assert(texts.push(t).drop_last() =~= texts);
}

/// Where a Responses answer comes from: a non-blank top-level `output_text`
/// wins; otherwise the joined output texts, if not blank; without an
/// `output` array there is none.
pub proof fn law_responses_answer_sources(response: Json)
    ensures
        str_of(get(response, "output_text"@)) is Some && !is_blank(
            str_of(get(response, "output_text"@))->0,
        ) ==> responses_answer(response) == str_of(get(response, "output_text"@)),
        !(str_of(get(response, "output_text"@)) is Some && !is_blank(
            str_of(get(response, "output_text"@))->0,
        )) ==> (
        responses_answer(response) == match get(response, "output"@) {
            Some(Json::Array(outputs)) => if is_blank(join_lines(output_texts(outputs@))) {
                None
            } else {
                Some(join_lines(output_texts(outputs@)))
            },
            _ => None,
        }),
{
}

/// A Chat answer is the first choice's message content, when it is a
/// non-blank string, and nothing otherwise.
pub proof fn law_chat_answer_source(response: Json)
    ensures
        str_of(pointer(response, chat_content_path())) is Some && !is_blank(
            str_of(pointer(response, chat_content_path()))->0,
        ) ==> chat_answer(response) == str_of(pointer(response, chat_content_path())),
        !(str_of(pointer(response, chat_content_path())) is Some && !is_blank(
            str_of(pointer(response, chat_content_path()))->0,
        )) ==> chat_answer(response) is None,
{
}

/// A Chat chunk fails exactly when it carries a non-null `error`.
pub proof fn law_chat_fails_on_error(event: Json, answer: Seq<char>)
    ensures
        chat_step(event, answer).0 is Failed <==> is_present_non_null(get(event, "error"@)),
        is_present_non_null(get(event, "error"@)) ==> chat_step(event, answer) == (
            EventOutcome::Failed(UNFINISHED_PREFIX@ + stream_error_detail(event)),
            answer,
        ),
{
}

/// Blank event data is skipped, `[DONE]` completes the stream, and event
/// data that is not JSON is skipped for `ping` events and an error
/// otherwise; none of these touch the answer.
pub proof fn law_stream_markers(
    format: ApiFormat,
    event_name: Seq<char>,
    data: Seq<char>,
    answer: Seq<char>,
)
    ensures
        is_blank(data) ==> stream_step(format, event_name, data, answer) == (
            EventOutcome::Continue,
            answer,
        ),
        trim(data) == "[DONE]"@ ==> stream_step(format, event_name, data, answer) == (
            EventOutcome::Completed,
            answer,
        ),
        !is_blank(data) && trim(data) != "[DONE]"@ && json_parse_result(trim(data)) is Err ==> (
        stream_step(format, event_name, data, answer) == if event_name == "ping"@ {
            (EventOutcome::Continue, answer)
        } else {
            (
                EventOutcome::Failed(INVALID_EVENT_PREFIX@ + json_parse_result(trim(data))->Err_0),
                answer,
            )
        }),
{
    reveal_strlit("[DONE]");
}

/// The reason of an error event is the first string found at
/// `/response/error/message`, `/response/incomplete_details/reason`,
/// `/error/message` and `/message`, in this order, or `詳細不明`.
pub proof fn law_stream_error_reason_order(event: Json)
    ensures
        stream_error_detail(event) == {
            let a = str_of(pointer(event, seq!["response"@, "error"@, "message"@]));
            let b = str_of(pointer(event, seq!["response"@, "incomplete_details"@, "reason"@]));
            let c = str_of(pointer(event, seq!["error"@, "message"@]));
            let d = str_of(pointer(event, seq!["message"@]));
            if a is Some {
                a->0
            } else if b is Some {
                b->0
            } else if c is Some {
                c->0
            } else if d is Some {
                d->0
            } else {
                UNKNOWN_DETAIL@
            }
        },
{
    reveal_with_fuel(first_reason, 5);
    let paths = error_paths();
    assert(paths.drop_first()[0] == paths[1]);
    assert(paths.drop_first().drop_first()[0] == paths[2]);
    assert(paths.drop_first().drop_first().drop_first()[0] == paths[3]);
    assert(paths.drop_first().drop_first().drop_first().drop_first() =~= Seq::<
        Seq<Seq<char>>,
    >::empty());
}

/// `truncate` keeps at most `max_chars` characters of the text, in order,
/// adds one mark when it cuts, and changes nothing in a short enough text.
pub proof fn law_truncation_bounds(text: Seq<char>, max_chars: nat)
    ensures
        truncated(text, max_chars).len() <= max_chars + 1,
        text.len() <= max_chars ==> truncated(text, max_chars) == text,
        text.len() > max_chars ==> has_prefix(truncated(text, max_chars), text.take(
            max_chars as int,
        )),
{
    reveal_strlit("…");
    if text.len() > max_chars {
        let t = truncated(text, max_chars);
        assert(t.take(max_chars as int) =~= text.take(max_chars as int));
    }
}

} // verus!
