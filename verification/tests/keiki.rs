use zeron::keiki::{
    agent_id, chat_id, conversation_locator, default_api_url, is_keiki_chat, is_keiki_space,
    map_agent, map_conversation, map_device, map_message, map_snapshot, map_transcript,
    normalize_timestamp, parse_timestamp, takeover_live, timestamp_or_now, AgentSummary,
    ConversationDetail, ConversationMessage, ConversationSummary, ConversationTakeover,
    KeikiConversation, MessageDirection, Timestamp, DEFAULT_API_URL,
};
use zeron::rows::{MessagePart, MessageRole};

fn now() -> Timestamp {
    Timestamp {
        secs: 1_767_225_600,
        nanos: 0,
    }
}

fn to_rfc3339(instant: Timestamp) -> String {
    chrono::DateTime::from_timestamp(instant.secs, instant.nanos)
        .unwrap()
        .to_rfc3339()
}

fn message(direction: MessageDirection, content: &str) -> ConversationMessage {
    ConversationMessage {
        id: "m".into(),
        direction,
        content: content.into(),
        created_at: "2026-01-01T00:00:00Z".into(),
        internal: false,
        staff_name: None,
    }
}

fn summary(last_message_at: &str) -> ConversationSummary {
    ConversationSummary {
        phone: "+15551234".into(),
        contact_name: None,
        agent_id: Some("agent-1".into()),
        last_message: "Hello".into(),
        last_message_at: last_message_at.into(),
    }
}

#[test]
fn chat_ids_round_trip() {
    let id = chat_id("agent-1", "+15551234");
    assert_eq!(conversation_locator(&id).unwrap().identity, "+15551234");
    assert_eq!(
        conversation_locator(&id).unwrap().agent_id.as_deref(),
        Some("agent-1")
    );
}

#[test]
fn message_roles_follow_direction() {
    let message = message(MessageDirection::Inbound, "hello");
    assert_eq!(map_message(&message, now()).unwrap().role, MessageRole::User);
}

#[test]
fn internal_messages_are_labeled_with_staff_name() {
    let message = ConversationMessage {
        internal: true,
        staff_name: Some("Devin".into()),
        ..message(MessageDirection::Inbound, "I can help with that.")
    };
    let entry = map_message(&message, now()).expect("internal messages map");
    assert_eq!(entry.role, MessageRole::User);
    assert_eq!(
        entry.parts,
        vec![MessagePart::Text {
            id: "m:text".into(),
            text: "Internal turn — Devin\n\nI can help with that.".into(),
        }]
    );
}

#[test]
fn parses_rfc3339_timestamps() {
    assert_eq!(
        parse_timestamp("2026-01-01T00:00:00+02:00")
            .unwrap()
            .timestamp(),
        1_767_218_400
    );
}

#[test]
fn parses_postgres_timestamps_with_fractional_seconds() {
    assert_eq!(
        to_rfc3339(parse_timestamp("2026-08-28 16:58:29.714004+00").unwrap()),
        "2026-08-28T16:58:29.714004+00:00"
    );
}

#[test]
fn parses_postgres_timestamps_without_fractional_seconds() {
    assert_eq!(
        to_rfc3339(parse_timestamp("2026-08-28 16:58:29+00").unwrap()),
        "2026-08-28T16:58:29+00:00"
    );
}

#[test]
fn parses_space_separated_timestamps_with_trailing_z() {
    assert_eq!(
        to_rfc3339(parse_timestamp("2026-08-28 16:58:29.7Z").unwrap()),
        "2026-08-28T16:58:29.700+00:00"
    );
}

#[test]
fn rejects_invalid_timestamps() {
    assert_eq!(parse_timestamp("not-a-timestamp"), None);
}

#[test]
fn conversation_with_invalid_timestamp_is_kept() {
    let chat = map_conversation(&summary("not-a-timestamp"), now());
    assert!(chat.is_some());
}

#[test]
fn shapes_timestamps_before_they_are_read() {
    assert_eq!(
        normalize_timestamp("2026-08-28 16:58:29+00"),
        "2026-08-28T16:58:29+00:00"
    );
    assert_eq!(
        normalize_timestamp("2026-01-01T00:00:00Z"),
        "2026-01-01T00:00:00Z"
    );
    assert_eq!(timestamp_or_now("nonsense", now()), now());
    assert_eq!(
        timestamp_or_now("2026-01-01T00:00:01Z", now()).timestamp(),
        1_767_225_601
    );
    assert_eq!(
        timestamp_or_now("2026-01-01T00:00:00.250Z", now()).timestamp_millis(),
        1_767_225_600_250
    );
}

#[test]
fn takeovers_end_when_they_expire() {
    let mut conversation = KeikiConversation::new("keiki-conv:a:1".into());
    assert!(!takeover_live(&conversation, now()));
    conversation.takeover = Some(ConversationTakeover {
        expires_at: "2026-01-01T00:00:01Z".into(),
    });
    assert!(takeover_live(&conversation, now()));
    conversation.takeover = Some(ConversationTakeover {
        expires_at: "2026-01-01T00:00:00Z".into(),
    });
    assert!(!takeover_live(&conversation, now()));
}

#[test]
fn ids_tell_cloud_rows_from_others() {
    assert_eq!(agent_id("a"), "keiki-agent:a");
    assert_eq!(chat_id("a", "1"), "keiki-conv:a:1");
    assert!(is_keiki_chat("keiki-conv:a:1"));
    assert!(!is_keiki_chat("keiki-agent:a"));
    assert!(is_keiki_space("keiki-agent:a"));
    assert!(!is_keiki_space("space"));
    assert!(conversation_locator("chat").is_none());
    assert!(conversation_locator("keiki-conv:nothing").is_none());
}

#[test]
fn the_service_is_the_configured_one() {
    assert_eq!(default_api_url(None), DEFAULT_API_URL);
    assert_eq!(
        default_api_url(Some("https://example.invalid".into())),
        "https://example.invalid"
    );
}

#[test]
fn agents_and_conversations_become_rows() {
    let agent = AgentSummary {
        id: "agent-1".into(),
        name: "Support".into(),
        created_at: "2026-01-01T00:00:00Z".into(),
    };
    let space = map_agent(&agent, now());
    assert_eq!(space.id, "keiki-agent:agent-1");
    assert_eq!(space.name.as_deref(), Some("Support"));
    let chat = map_conversation(&summary("2026-01-01T00:00:00Z"), now()).unwrap();
    assert_eq!(chat.id, "keiki-conv:agent-1:+15551234");
    assert_eq!(chat.space_id.as_deref(), Some("keiki-agent:agent-1"));
    assert_eq!(map_device(now()).id, "keiki-cloud");
    let mut orphan = summary("2026-01-01T00:00:00Z");
    orphan.agent_id = None;
    let (spaces, chats) = map_snapshot(
        &vec![agent],
        &vec![orphan, summary("2026-01-01T00:00:00Z")],
        now(),
    );
    assert_eq!(spaces.len(), 1);
    assert_eq!(chats.len(), 1);
}

#[test]
fn transcripts_keep_their_order() {
    let detail = ConversationDetail {
        messages: vec![
            message(MessageDirection::Inbound, "question"),
            message(MessageDirection::Outbound, "answer"),
        ],
    };
    let entries = map_transcript(&detail, now());
    assert_eq!(entries.len(), 2);
    assert_eq!(entries[0].role, MessageRole::User);
    assert_eq!(entries[1].role, MessageRole::Assistant);
}

#[test]
fn both_forms_of_an_instant_name_the_same() {
    for (date, time, offset) in [
        ("2026-08-28", "16:58:29", "+00"),
        ("2026-08-28", "16:58:29.714004", "-05"),
        ("1999-12-31", "23:59:60", "+14"),
    ] {
        let database = parse_timestamp(&format!("{date} {time}{offset}"));
        assert!(database.is_some());
        assert_eq!(
            database,
            parse_timestamp(&format!("{date}T{time}{offset}:00"))
        );
    }
}
