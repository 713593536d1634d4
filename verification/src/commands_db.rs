//! Secure-vault IPC request and record shapes, their conversions to and from
//! the vault worker's own records, and the wire-size gate every request
//! passes before it reaches the worker.
use vstd::prelude::*;

verus! {

/// Upper bound, in UTF-8 bytes, of a chat title crossing IPC.
pub const IPC_TITLE_MAX_BYTES: usize = 2_048;

/// Byte length of a string's UTF-8 encoding, as `str::len` reports it.
pub open spec fn utf8_len(s: Seq<char>) -> usize {
    vstd::utf8::encode_utf8(s).len() as usize
}

/// The closed error codes that cross IPC.
#[derive(Debug, Clone, Copy, PartialEq, Eq, Structural)]
pub enum VaultErrorCode {
    InvalidInput,
    Unavailable,
}

#[derive(Clone, Debug, PartialEq, Eq)]
pub struct VaultChatCreateRequest {
    pub id: String,
    pub title: String,
    pub created_at: i64,
}

#[derive(Clone, Debug, PartialEq, Eq)]
pub struct VaultChatDeleteRequest {
    pub id: String,
}

#[derive(Clone, Debug, PartialEq, Eq)]
pub struct VaultChatsListRequest {
    pub limit: Option<u32>,
}

#[derive(Clone, Debug, PartialEq, Eq)]
pub struct VaultMessageAppendRequest {
    pub id: String,
    pub chat_id: String,
    pub role: String,
    pub content: String,
    pub timestamp: i64,
}

#[derive(Clone, Debug, PartialEq, Eq)]
pub struct VaultMessageCursorRequest {
    pub timestamp: i64,
    pub id: String,
}

#[derive(Clone, Debug, PartialEq, Eq)]
pub struct VaultMessagesListRequest {
    pub chat_id: String,
    pub cursor: Option<VaultMessageCursorRequest>,
    pub limit: Option<u32>,
}

#[derive(Clone, Debug, PartialEq, Eq)]
pub struct VaultChatRecord {
    pub id: String,
    pub title: String,
    pub created_at: i64,
}

#[derive(Clone, Debug, PartialEq, Eq)]
pub struct VaultMessageRecord {
    pub id: String,
    pub chat_id: String,
    pub role: String,
    pub content: String,
    pub timestamp: i64,
}

/// The worker's input for creating a chat.
#[derive(Clone, Debug, PartialEq, Eq)]
pub struct ChatCreate {
    pub id: String,
    pub title: String,
    pub created_at: i64,
}

/// The worker's input for appending a message.
#[derive(Clone, Debug, PartialEq, Eq)]
pub struct MessageAppend {
    pub id: String,
    pub chat_id: String,
    pub role: String,
    pub content: String,
    pub timestamp: i64,
}

/// The worker's keyset-pagination cursor.
#[derive(Clone, Debug, PartialEq, Eq)]
pub struct MessageCursor {
    pub timestamp: i64,
    pub id: String,
}

/// A chat as the worker returns it.
#[derive(Clone, Debug, PartialEq, Eq)]
pub struct ChatRecord {
    pub id: String,
    pub title: String,
    pub created_at: i64,
}

/// A message as the worker returns it.
#[derive(Clone, Debug, PartialEq, Eq)]
pub struct MessageRecord {
    pub id: String,
    pub chat_id: String,
    pub role: String,
    pub content: String,
    pub timestamp: i64,
}

impl From<VaultChatCreateRequest> for ChatCreate {
    fn from(request: VaultChatCreateRequest) -> (r: Self) {
        ChatCreate { id: request.id, title: request.title, created_at: request.created_at }
    }
}

impl vstd::std_specs::convert::FromSpecImpl<VaultChatCreateRequest> for ChatCreate {
    open spec fn obeys_from_spec() -> bool {
        true
    }

    open spec fn from_spec(request: VaultChatCreateRequest) -> Self {
        ChatCreate { id: request.id, title: request.title, created_at: request.created_at }
    }
}

impl From<VaultMessageAppendRequest> for MessageAppend {
    fn from(request: VaultMessageAppendRequest) -> (r: Self) {
        MessageAppend {
            id: request.id,
            chat_id: request.chat_id,
            role: request.role,
            content: request.content,
            timestamp: request.timestamp,
        }
    }
}

impl vstd::std_specs::convert::FromSpecImpl<VaultMessageAppendRequest> for MessageAppend {
    open spec fn obeys_from_spec() -> bool {
        true
    }

    open spec fn from_spec(request: VaultMessageAppendRequest) -> Self {
        MessageAppend {
            id: request.id,
            chat_id: request.chat_id,
            role: request.role,
            content: request.content,
            timestamp: request.timestamp,
        }
    }
}

impl From<VaultMessageCursorRequest> for MessageCursor {
    fn from(request: VaultMessageCursorRequest) -> (r: Self) {
        MessageCursor { timestamp: request.timestamp, id: request.id }
    }
}

impl vstd::std_specs::convert::FromSpecImpl<VaultMessageCursorRequest> for MessageCursor {
    open spec fn obeys_from_spec() -> bool {
        true
    }

    open spec fn from_spec(request: VaultMessageCursorRequest) -> Self {
        MessageCursor { timestamp: request.timestamp, id: request.id }
    }
}

impl From<ChatRecord> for VaultChatRecord {
    fn from(record: ChatRecord) -> (r: Self) {
        VaultChatRecord { id: record.id, title: record.title, created_at: record.created_at }
    }
}

impl vstd::std_specs::convert::FromSpecImpl<ChatRecord> for VaultChatRecord {
    open spec fn obeys_from_spec() -> bool {
        true
    }

    open spec fn from_spec(record: ChatRecord) -> Self {
        VaultChatRecord { id: record.id, title: record.title, created_at: record.created_at }
    }
}

impl From<MessageRecord> for VaultMessageRecord {
    fn from(record: MessageRecord) -> (r: Self) {
        VaultMessageRecord {
            id: record.id,
            chat_id: record.chat_id,
            role: record.role,
            content: record.content,
            timestamp: record.timestamp,
        }
    }
}

impl vstd::std_specs::convert::FromSpecImpl<MessageRecord> for VaultMessageRecord {
    open spec fn obeys_from_spec() -> bool {
        true
    }

    open spec fn from_spec(record: MessageRecord) -> Self {
        VaultMessageRecord {
            id: record.id,
            chat_id: record.chat_id,
            role: record.role,
            content: record.content,
            timestamp: record.timestamp,
        }
    }
}

/// A wire id is exactly 36 bytes long (the hyphenated UUID form).
pub open spec fn wire_id_ok(s: Seq<char>) -> bool {
    utf8_len(s) == 36
}

pub fn require_wire_id(value: &str) -> (r: Result<(), VaultErrorCode>)
    ensures
        r is Ok <==> wire_id_ok(value@),
        r is Err ==> r == Err::<(), VaultErrorCode>(VaultErrorCode::InvalidInput),
{
    if value.len() == 36 {
        Ok(())
    } else {
        Err(VaultErrorCode::InvalidInput)
    }
}

/// A chat creation passes: a wire id and a title of at most
/// `IPC_TITLE_MAX_BYTES` bytes.
pub fn validate_chat_create_wire(request: &VaultChatCreateRequest) -> (r: Result<(), VaultErrorCode>)
    ensures
        r is Ok <==> wire_id_ok(request.id@) && utf8_len(request.title@) <= IPC_TITLE_MAX_BYTES,
        r is Err ==> r == Err::<(), VaultErrorCode>(VaultErrorCode::InvalidInput),
{
    require_wire_id(request.id.as_str())?;
    if request.title.as_str().len() > IPC_TITLE_MAX_BYTES {
        return Err(VaultErrorCode::InvalidInput);
    }
    Ok(())
}

pub fn validate_chat_delete_wire(request: &VaultChatDeleteRequest) -> (r: Result<(), VaultErrorCode>)
    ensures
        r is Ok <==> wire_id_ok(request.id@),
        r is Err ==> r == Err::<(), VaultErrorCode>(VaultErrorCode::InvalidInput),
{
    require_wire_id(request.id.as_str())
}

/// A message append passes: two wire ids and content of at most
/// `content_max_bytes` bytes (the repository's content cap).
pub fn validate_message_append_wire(
    request: &VaultMessageAppendRequest,
    content_max_bytes: usize,
) -> (r: Result<(), VaultErrorCode>)
    ensures
        r is Ok <==> wire_id_ok(request.id@) && wire_id_ok(request.chat_id@) && utf8_len(
            request.content@,
        ) <= content_max_bytes,
        r is Err ==> r == Err::<(), VaultErrorCode>(VaultErrorCode::InvalidInput),
{
    require_wire_id(request.id.as_str())?;
    require_wire_id(request.chat_id.as_str())?;
    if request.content.as_str().len() > content_max_bytes {
        return Err(VaultErrorCode::InvalidInput);
    }
    Ok(())
}

/// A message listing passes: a wire chat id, and a wire id in the cursor
/// when there is one.
pub fn validate_messages_list_wire(request: &VaultMessagesListRequest) -> (r: Result<
    (),
    VaultErrorCode,
>)
    ensures
        r is Ok <==> wire_id_ok(request.chat_id@) && match request.cursor {
            Some(c) => wire_id_ok(c.id@),
            None => true,
        },
        r is Err ==> r == Err::<(), VaultErrorCode>(VaultErrorCode::InvalidInput),
{
    require_wire_id(request.chat_id.as_str())?;
    if let Some(cursor) = request.cursor.as_ref() {
        require_wire_id(cursor.id.as_str())?;
    }
    Ok(())
}

} // verus!
