use blackbox_sim::coliseum_commands::{
    assign_interview_turn_ids, seal_metacognitive_debrief, TranscriptTurnDto,
};
use blackbox_sim::commands_db::{
    validate_chat_create_wire, validate_chat_delete_wire, validate_message_append_wire,
    validate_messages_list_wire, ChatCreate, ChatRecord, MessageCursor, MessageRecord,
    VaultChatCreateRequest, VaultChatDeleteRequest, VaultChatRecord, VaultErrorCode,
    VaultMessageAppendRequest, VaultMessageCursorRequest, VaultMessageRecord,
    VaultMessagesListRequest, IPC_TITLE_MAX_BYTES,
};
use blackbox_sim::request_cap::{size_verdict, CappedJsonSink, SinkError};
use blackbox_sim::evaluation::{
    MetacognitiveDebriefV1, MetacognitiveInsightV1, VaultMirrorAbstract,
    METACOGNITIVE_DEBRIEF_SCHEMA,
};

const ID: &str = "00000000-0000-4000-8000-000000000001";
const MESSAGE_ID: &str = "10000000-0000-4000-8000-000000000001";
/// The repository's content cap used by these checks.
const REPOSITORY_CONTENT_MAX_BYTES: usize = 64 * 1024;

#[test]
fn wire_size_checks_accept_boundaries_and_reject_excess() {
    let boundary_chat = VaultChatCreateRequest {
        id: ID.to_string(),
        title: "t".repeat(IPC_TITLE_MAX_BYTES),
        created_at: 0,
    };
    assert_eq!(validate_chat_create_wire(&boundary_chat), Ok(()));

    let short_id = VaultChatCreateRequest {
        id: "x".repeat(35),
        title: "title".to_string(),
        created_at: 0,
    };
    assert_eq!(validate_chat_create_wire(&short_id), Err(VaultErrorCode::InvalidInput));

    let oversized_title = VaultChatCreateRequest {
        id: ID.to_string(),
        title: "t".repeat(IPC_TITLE_MAX_BYTES + 1),
        created_at: 0,
    };
    assert_eq!(validate_chat_create_wire(&oversized_title), Err(VaultErrorCode::InvalidInput));

    let boundary_message = VaultMessageAppendRequest {
        id: MESSAGE_ID.to_string(),
        chat_id: ID.to_string(),
        role: "user".to_string(),
        content: "c".repeat(REPOSITORY_CONTENT_MAX_BYTES),
        timestamp: 0,
    };
    assert_eq!(
        validate_message_append_wire(&boundary_message, REPOSITORY_CONTENT_MAX_BYTES),
        Ok(())
    );

    let oversized_message = VaultMessageAppendRequest {
        content: "c".repeat(REPOSITORY_CONTENT_MAX_BYTES + 1),
        ..boundary_message
    };
    assert_eq!(
        validate_message_append_wire(&oversized_message, REPOSITORY_CONTENT_MAX_BYTES),
        Err(VaultErrorCode::InvalidInput)
    );
}

#[test]
fn title_limit_counts_bytes_not_characters() {
    let three_byte_chars = VaultChatCreateRequest {
        id: ID.to_string(),
        title: "あ".repeat(IPC_TITLE_MAX_BYTES / 3 + 1),
        created_at: 0,
    };
    assert_eq!(validate_chat_create_wire(&three_byte_chars), Err(VaultErrorCode::InvalidInput));
    let multibyte_id = VaultChatDeleteRequest { id: "あ".repeat(12) };
    assert_eq!(validate_chat_delete_wire(&multibyte_id), Ok(()));
}

#[test]
fn listing_checks_the_chat_id_and_the_cursor_id() {
    let ok_list = VaultMessagesListRequest {
        chat_id: ID.to_string(),
        cursor: Some(VaultMessageCursorRequest { timestamp: 2, id: MESSAGE_ID.to_string() }),
        limit: Some(25),
    };
    assert_eq!(validate_messages_list_wire(&ok_list), Ok(()));
    let bad_cursor = VaultMessagesListRequest {
        cursor: Some(VaultMessageCursorRequest { timestamp: 2, id: "short".to_string() }),
        ..ok_list.clone()
    };
    assert_eq!(validate_messages_list_wire(&bad_cursor), Err(VaultErrorCode::InvalidInput));
    let no_cursor = VaultMessagesListRequest { cursor: None, ..ok_list };
    assert_eq!(validate_messages_list_wire(&no_cursor), Ok(()));
}

#[test]
fn response_conversions_preserve_all_fields() {
    let chat = VaultChatRecord::from(ChatRecord {
        id: ID.to_string(),
        title: "title".to_string(),
        created_at: 1,
    });
    assert_eq!(chat.id, ID);
    assert_eq!(chat.title, "title");
    assert_eq!(chat.created_at, 1);

    let message = VaultMessageRecord::from(MessageRecord {
        id: MESSAGE_ID.to_string(),
        chat_id: ID.to_string(),
        role: "user".to_string(),
        content: "content".to_string(),
        timestamp: 2,
    });
    assert_eq!(message.id, MESSAGE_ID);
    assert_eq!(message.chat_id, ID);
    assert_eq!(message.role, "user");
    assert_eq!(message.content, "content");
    assert_eq!(message.timestamp, 2);
}

#[test]
fn request_conversions_preserve_all_fields() {
    let create = ChatCreate::from(VaultChatCreateRequest {
        id: ID.to_string(),
        title: "title".to_string(),
        created_at: 7,
    });
    assert_eq!(create, ChatCreate { id: ID.to_string(), title: "title".to_string(), created_at: 7 });
    let cursor = MessageCursor::from(VaultMessageCursorRequest {
        timestamp: 9,
        id: MESSAGE_ID.to_string(),
    });
    assert_eq!(cursor, MessageCursor { timestamp: 9, id: MESSAGE_ID.to_string() });
}

#[test]
fn turn_ids_are_numbered_from_zero() {
    let v = assign_interview_turn_ids(vec![
        ("interviewer".to_string(), "質問".to_string()),
        ("candidate".to_string(), "回答".to_string()),
    ])
    .unwrap();
    assert_eq!(
        v.iter().map(|t| t.turn_id.as_str()).collect::<Vec<_>>(),
        vec!["t-0", "t-1"]
    );
    assert_eq!(v[1].role, "candidate");
    assert_eq!(v[1].text, "回答");
}

fn debrief(kind: &str, turn: &str, opted_in: bool) -> MetacognitiveDebriefV1 {
    MetacognitiveDebriefV1 {
        schema: "stale".into(),
        opted_in,
        insights: vec![MetacognitiveInsightV1 {
            parallel_label: "  圧迫下の視野狭窄 ".into(),
            interview_turn_id: turn.into(),
            mirror_kind: kind.into(),
            distortion_category: Some("mental_filter".into()),
            note: "先月のパターンと同型".into(),
        }],
    }
}

fn mirror() -> VaultMirrorAbstract {
    VaultMirrorAbstract {
        distortion_category_keys: vec!["mental_filter".into()],
        spend_pattern_band: "baseline".into(),
        late_night_tendency: false,
    }
}

fn transcript() -> Vec<TranscriptTurnDto> {
    vec![TranscriptTurnDto {
        turn_id: "t-0".into(),
        role: "candidate".into(),
        text: "答えに詰まった".into(),
    }]
}

#[test]
fn sealing_normalizes_then_validates_the_debrief() {
    let sealed =
        seal_metacognitive_debrief(debrief("distortion_isomorphism", " t-0 ", true), mirror(), transcript())
            .unwrap();
    assert_eq!(sealed.schema, METACOGNITIVE_DEBRIEF_SCHEMA);
    assert_eq!(sealed.insights[0].interview_turn_id, "t-0");
    assert_eq!(sealed.insights[0].parallel_label, "圧迫下の視野狭窄");
    assert_eq!(
        seal_metacognitive_debrief(debrief("distortion_isomorphism", "t-9", true), mirror(), transcript()),
        Err("evaluation_unknown_turn_id:t-9".to_string())
    );
    assert_eq!(
        seal_metacognitive_debrief(debrief("late_night_tendency", "t-0", true), mirror(), transcript()),
        Err("debrief_mirror_mismatch".to_string())
    );
    assert_eq!(
        seal_metacognitive_debrief(debrief("resource_parallel", "t-0", false), mirror(), transcript()),
        Err("debrief_not_opted_in".to_string())
    );
}

#[test]
fn a_capped_sink_accepts_up_to_its_cap_and_refuses_past_it() {
    let mut sink = CappedJsonSink::new(8);
    assert_eq!(sink.write(b"abcde"), Ok(5));
    assert_eq!(sink.written(), 5);
    assert!(!sink.exceeded());
    assert_eq!(sink.write(b"fgh"), Ok(3));
    assert_eq!(sink.written(), 8);
    assert_eq!(sink.write(b"i"), Err(SinkError::LimitExceeded));
    assert_eq!(sink.written(), 8);
    assert!(sink.exceeded());
    assert_eq!(sink.flush(), Ok(()));
    assert_eq!(sink.write(b""), Ok(0));
}

#[test]
fn a_refused_write_accepts_nothing() {
    let mut sink = CappedJsonSink::new(4);
    assert_eq!(sink.write(b"abcdef"), Err(SinkError::LimitExceeded));
    assert_eq!(sink.written(), 0);
    assert!(sink.exceeded());
    assert_eq!(sink.write(b"abcd"), Ok(4));
}

#[test]
fn size_verdicts_name_the_cause() {
    assert_eq!(size_verdict(true, false), Ok(()));
    assert_eq!(size_verdict(true, true), Ok(()));
    assert_eq!(
        size_verdict(false, true),
        Err("renderer request exceeds the allowed size".to_string())
    );
    assert_eq!(size_verdict(false, false), Err("invalid renderer request".to_string()));
}
