use uuid::Uuid;
use ziee_mcp::sampling::{
    map_stop_reason, sampling_chat_messages, ChatBlock, ChatMessage, ChatRole, SamplingContent,
    SamplingMessage, StreamCollector,
};
use ziee_mcp::sessions::SessionCounter;

#[test]
fn test_sampling_content_image_as_text_returns_none() {
    let content = SamplingContent::Image { data: "abc".to_string(), mime_type: "image/png".to_string() };
    assert!(content.as_text().is_none());
}

#[test]
fn sampling_content_text_reads_back() {
    let content = SamplingContent::Text { text: "hello".to_string() };
    assert_eq!(content.as_text(), Some("hello"));
    assert!(SamplingContent::Unknown.as_text().is_none());
}

#[test]
fn test_acquire_session_no_limit() {
    let mut counter = SessionCounter::new();
    let id = Uuid::new_v4().as_u128();
    let guard = counter.acquire_session(id, None).expect("Should succeed with None limit");
    assert!(!guard.holds_slot, "Unlimited guard should not hold a slot");
    counter.release(guard);

    let guard2 = counter.acquire_session(id, Some(0)).expect("Should succeed with 0 limit");
    assert!(!guard2.holds_slot, "Zero limit guard should not hold a slot");
}

#[test]
fn test_acquire_session_within_limit() {
    let mut counter = SessionCounter::new();
    let id = Uuid::new_v4().as_u128();
    let guard1 = counter.acquire_session(id, Some(2)).expect("First acquire should succeed");
    assert!(guard1.holds_slot);
    let guard2 = counter.acquire_session(id, Some(2)).expect("Second acquire should succeed");
    assert!(guard2.holds_slot);

    counter.release(guard1);

    let guard3 = counter.acquire_session(id, Some(2)).expect("After drop, should succeed");
    assert!(guard3.holds_slot);
    counter.release(guard2);
    counter.release(guard3);
}

#[test]
fn test_acquire_session_at_capacity() {
    let mut counter = SessionCounter::new();
    let id = Uuid::new_v4().as_u128();
    let guard1 = counter.acquire_session(id, Some(2)).expect("First acquire should succeed");
    let guard2 = counter.acquire_session(id, Some(2)).expect("Second acquire should succeed");

    let result = counter.acquire_session(id, Some(2));
    assert!(result.is_err(), "Should fail when at capacity");

    counter.release(guard1);
    let guard3 = counter.acquire_session(id, Some(2)).expect("After dropping one, should succeed");
    counter.release(guard2);
    counter.release(guard3);
}

#[test]
fn test_raii_guard_releases_on_drop() {
    let mut counter = SessionCounter::new();
    let id = Uuid::new_v4().as_u128();
    {
        let guard = counter.acquire_session(id, Some(1)).expect("Should succeed");
        let result = counter.acquire_session(id, Some(1));
        assert!(result.is_err(), "Should be at capacity");
        counter.release(guard);
    }
    let guard = counter.acquire_session(id, Some(1)).expect("After drop, should succeed");
    counter.release(guard);
}

#[test]
fn test_acquire_session_second_concurrent_fails() {
    let mut counter = SessionCounter::new();
    let server_id = Uuid::new_v4().as_u128();

    let guard1 = counter
        .acquire_session(server_id, Some(1))
        .expect("First session should succeed when server has no active sessions");
    assert!(guard1.holds_slot);

    let result2 = counter.acquire_session(server_id, Some(1));
    assert!(
        result2.is_err(),
        "Second concurrent session must be rejected when max_concurrent_sessions=1 is held"
    );

    counter.release(guard1);

    let guard3 = counter.acquire_session(server_id, Some(1));
    assert!(guard3.is_ok(), "Session acquisition should succeed again after the previous guard is dropped");
}

#[test]
fn capacity_error_is_exact_and_servers_are_independent() {
    let mut counter = SessionCounter::new();
    let _g = counter.acquire_session(1, Some(1)).unwrap();
    let e = counter.acquire_session(1, Some(1)).unwrap_err();
    assert_eq!(e.status, 400);
    assert_eq!(e.code, "SAMPLING_CAPACITY_EXCEEDED");
    assert_eq!(e.message, "This MCP server is at capacity. Please try again shortly.");
    assert!(counter.acquire_session(2, Some(1)).is_ok());
    // A negative limit is unlimited.
    assert!(!counter.acquire_session(1, Some(-3)).unwrap().holds_slot);
}

#[test]
fn sampling_messages_become_chat_messages() {
    let msgs = vec![
        SamplingMessage { role: "user".into(), content: SamplingContent::Text { text: "hi".into() } },
        SamplingMessage { role: "assistant".into(), content: SamplingContent::Unknown },
        SamplingMessage {
            role: "assistant".into(),
            content: SamplingContent::Image { data: "AAAA".into(), mime_type: "image/png".into() },
        },
        SamplingMessage { role: "other".into(), content: SamplingContent::Text { text: "x".into() } },
    ];
    let out = sampling_chat_messages(Some("be brief"), &msgs);
    assert_eq!(
        out,
        vec![
            ChatMessage { role: ChatRole::System, content: vec![ChatBlock::Text("be brief".into())] },
            ChatMessage { role: ChatRole::User, content: vec![ChatBlock::Text("hi".into())] },
            ChatMessage {
                role: ChatRole::Assistant,
                content: vec![ChatBlock::Image { media_type: "image/png".into(), data: "AAAA".into() }],
            },
            ChatMessage { role: ChatRole::User, content: vec![ChatBlock::Text("x".into())] },
        ]
    );
    assert!(sampling_chat_messages(None, &vec![]).is_empty());
}

#[test]
fn stop_reasons_map_to_protocol_names() {
    assert_eq!(map_stop_reason("end_turn"), "endTurn");
    assert_eq!(map_stop_reason("STOP"), "endTurn");
    assert_eq!(map_stop_reason("length"), "maxTokens");
    assert_eq!(map_stop_reason("stop_sequence"), "stopSequence");
    assert_eq!(map_stop_reason("content_filter"), "content_filter");
}

#[test]
fn stream_collector_joins_text_and_keeps_last_reason() {
    let mut c = StreamCollector::new();
    c.on_chunk(None, &vec![Some("Hel".into()), None, Some("lo".into())]);
    c.on_chunk(Some("length".into()), &vec![]);
    c.on_chunk(None, &vec![Some("!".into())]);
    let r = c.into_result("gpt-x");
    assert_eq!(r.role, "assistant");
    assert_eq!(r.content, SamplingContent::Text { text: "Hello!".into() });
    assert_eq!(r.model, "gpt-x");
    assert_eq!(r.stop_reason.as_deref(), Some("maxTokens"));
}
