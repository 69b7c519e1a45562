use animecix::aicix::MessageRole;
use animecix::chat::{is_false, role_name, AicixState, DEFAULT_MODEL, NO_KEY_MESSAGE};
use animecix::stream::{ChoiceDelta, SseStream, ToolCallDelta, choice_deltas, connection_test_result, event_choices, is_done, stream_status_error};
use animecix::json::Json;

fn text(s: &str) -> ChoiceDelta {
    ChoiceDelta { content: Some(s.to_string()), tool_calls: Vec::new() }
}

fn frag(index: u64, id: Option<&str>, name: Option<&str>, args: Option<&str>) -> ToolCallDelta {
    ToolCallDelta {
        index,
        id: id.map(str::to_string),
        name: name.map(str::to_string),
        arguments: args.map(str::to_string),
    }
}

#[test]
fn feed_cuts_events_and_keeps_rest() {
    let mut s = SseStream::new();
    let d = s.feed(b"data: {\"a\":1}\n\nevent: x\ndata:  two \r\n\ndata: par");
    assert_eq!(d, vec!["{\"a\":1}".to_string(), "two".to_string()]);
    let rest: String = s.buffer.iter().collect();
    assert_eq!(rest, "data: par");
    let d2 = s.feed(b"tial\n\ndata: [DONE]\n\n");
    assert_eq!(d2, vec!["partial".to_string(), "[DONE]".to_string()]);
    assert!(is_done(&d2[1]));
    assert!(!is_done("[DONE] "));
    assert!(s.buffer.is_empty());
}

#[test]
fn feed_same_events_however_cut() {
    let whole = b"data: a\n\ndata: b\n\n: comment\n\ndata: c\n\n";
    let mut one = SseStream::new();
    let all = one.feed(whole);
    for cut in 0..whole.len() {
        let mut two = SseStream::new();
        let mut got = two.feed(&whole[..cut]);
        got.extend(two.feed(&whole[cut..]));
        assert_eq!(got, all, "cut at {cut}");
    }
    assert_eq!(all, vec!["a".to_string(), "b".to_string(), "c".to_string()]);
}

#[test]
fn apply_collects_text_and_tool_calls() {
    let mut s = SseStream::new();
    let t = s.apply(&vec![text("Mer"), text(""), text("haba")]);
    assert_eq!(t, vec!["Mer".to_string(), "haba".to_string()]);
    assert_eq!(s.content(), "Merhaba");
    s.apply(&vec![ChoiceDelta {
        content: None,
        tool_calls: vec![frag(0, Some("call_1"), Some("search_"), Some("{\"q\":")), frag(1, None, Some("x"), None)],
    }]);
    s.apply(&vec![ChoiceDelta {
        content: None,
        tool_calls: vec![frag(0, Some(""), Some("anime"), Some("\"naruto\"}")), frag(0, None, Some(""), None)],
    }]);
    let calls = s.finish_calls();
    // The call without an id is left out.
    assert_eq!(calls.len(), 1);
    assert_eq!(calls[0].id, "call_1");
    assert_eq!(calls[0].kind, "function");
    assert_eq!(calls[0].function.name, "search_anime");
    assert_eq!(calls[0].function.arguments, "{\"q\":\"naruto\"}");
}

#[test]
fn status_errors_and_connection_test() {
    assert_eq!(stream_status_error(200, "x"), None);
    assert_eq!(stream_status_error(399, "x"), None);
    let long = "é".repeat(400);
    let e = stream_status_error(429, &long).unwrap();
    assert_eq!(e, format!("HTTP 429: {}", "é".repeat(300)));
    assert_eq!(connection_test_result(200, "ignored"), Ok("Bağlantı başarılı (HTTP 200)".to_string()));
    assert_eq!(connection_test_result(401, "bad key"), Err("HTTP 401: bad key".to_string()));
    assert_eq!(connection_test_result(500, &long), Err(format!("HTTP 500: {}", "é".repeat(200))));
}

#[test]
fn chat_state_messages() {
    let mut st: AicixState<()> = AicixState::new();
    assert_eq!(st.model, DEFAULT_MODEL);
    assert!(!st.has_key());
    assert_eq!(st.require_key(), Err(NO_KEY_MESSAGE.to_string()));
    assert!(st.request_messages("sys").is_err());
    st.api_key = Some(String::new());
    assert!(!st.has_key());
    st.api_key = Some("k".to_string());
    assert!(st.has_key());
    st.push_user("selam");
    st.record_reply("", Vec::new());
    assert_eq!(st.history.len(), 1);
    let mut s = SseStream::new();
    s.apply(&vec![ChoiceDelta { content: Some("Tabii".to_string()), tool_calls: vec![frag(0, Some("c1"), Some("open_title"), Some("{}"))] }]);
    st.record_reply(&s.content(), s.finish_calls());
    assert_eq!(st.history.len(), 3);
    assert_eq!(st.history[1].role, MessageRole::Assistant);
    assert_eq!(st.history[1].content, "Tabii");
    assert_eq!(st.history[2].content, "");
    assert_eq!(st.history[2].tool_calls.as_ref().unwrap()[0].id, "c1");
    st.push_tool_result("c1", "open_title", "açılıyor");
    st.push_card("[3 bölüm]", ());
    assert!(st.history[4].is_card);
    let out = st.request_messages("sys").unwrap();
    assert_eq!(out.len(), 6);
    assert_eq!(out[0].role, "system");
    assert_eq!(out[0].content, "sys");
    assert_eq!(out[1].role, "user");
    assert_eq!(out[4].role, "tool");
    assert_eq!(out[4].tool_call_id.as_deref(), Some("c1"));
    assert_eq!(out[4].name.as_deref(), Some("open_title"));
    st.clear_history();
    assert!(st.history.is_empty());
    assert_eq!(role_name(MessageRole::System), "system");
    assert!(is_false(&false) && !is_false(&true));
}

fn sj(x: &str) -> Json {
    Json::Str(x.to_string())
}

fn oj(e: Vec<(&str, Json)>) -> Json {
    Json::Object(e.into_iter().map(|(k, v)| (k.to_string(), v)).collect())
}

#[test]
fn streamed_choices_are_read() {
    let piece = oj(vec![(
        "choices",
        Json::Array(vec![
            oj(vec![("delta", oj(vec![("content", sj("Mer"))]))]),
            oj(vec![(
                "delta",
                oj(vec![(
                    "tool_calls",
                    Json::Array(vec![oj(vec![
                        ("index", Json::Number(Some(1), Some(1))),
                        ("id", sj("call_1")),
                        ("function", oj(vec![("name", sj("search_anime")), ("arguments", sj("{\"q"))])),
                    ])]),
                )]),
            )]),
            oj(vec![]),
        ]),
    )]);
    let c = choice_deltas(&piece);
    assert_eq!(c.len(), 3);
    assert_eq!(c[0].content.as_deref(), Some("Mer"));
    assert!(c[0].tool_calls.is_empty());
    assert_eq!(c[1].content, None);
    assert_eq!(c[1].tool_calls[0].index, 1);
    assert_eq!(c[1].tool_calls[0].id.as_deref(), Some("call_1"));
    assert_eq!(c[1].tool_calls[0].name.as_deref(), Some("search_anime"));
    assert_eq!(c[1].tool_calls[0].arguments.as_deref(), Some("{\"q"));
    assert!(c[2].content.is_none() && c[2].tool_calls.is_empty());
    assert!(choice_deltas(&Json::Null).is_empty());
}

#[test]
fn event_choices_reads_event_text() {
    let data = "{\"choices\":[{\"delta\":{\"content\":\"Mer\"}},{\"delta\":{\"tool_calls\":[{\"index\":1,\"id\":\"call_1\",\"function\":{\"name\":\"open_title\",\"arguments\":\"{}\"}}]}}]}";
    let c = event_choices(data).expect("JSON");
    assert_eq!(c.len(), 2);
    assert_eq!(c[0].content.as_deref(), Some("Mer"));
    assert_eq!(c[1].tool_calls[0].index, 1);
    assert_eq!(c[1].tool_calls[0].name.as_deref(), Some("open_title"));
    assert_eq!(c[1].tool_calls[0].arguments.as_deref(), Some("{}"));
    assert!(event_choices("{\"choices\":").is_none());
    assert_eq!(event_choices("{}").map(|c| c.len()), Some(0));
}
