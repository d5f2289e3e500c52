//! The rows that the shell lists: devices, spaces, chats and the messages of a
//! transcript.

use vstd::prelude::*;

use crate::keiki::Timestamp;

verus! {

/// A machine that runs sessions.
#[derive(Debug, Clone)]
pub struct Device {
    pub id: String,
    pub name: String,
    pub platform: String,
    pub last_seen_at: Option<Timestamp>,
    pub created_at: Option<Timestamp>,
    pub version: Option<String>,
}

/// A project folder on a device.
#[derive(Debug, Clone)]
pub struct Space {
    pub id: String,
    pub device_id: String,
    pub path: String,
    pub name: Option<String>,
    pub git_detected: bool,
    pub git_checked_at: Option<Timestamp>,
    pub checkout_id: Option<String>,
    pub created_at: Timestamp,
}

/// A session.
#[derive(Debug, Clone)]
pub struct Chat {
    pub id: String,
    pub device_id: String,
    pub title: Option<String>,
    pub archived: bool,
    pub cwd: Option<String>,
    pub branch: Option<String>,
    pub checkout_id: Option<String>,
    pub last_message_preview: Option<String>,
    pub last_message_at: Option<Timestamp>,
    pub created_at: Timestamp,
    pub harness_session_id: Option<String>,
    pub harness_session_cwd: Option<String>,
    pub space_id: Option<String>,
    pub last_seen_at: Option<Timestamp>,
    pub room_gen: Option<u64>,
}

/// Who wrote a message.
#[derive(Debug, Clone, Copy, PartialEq, Eq, Structural)]
pub enum MessageRole {
    User,
    Assistant,
}

/// How far a message has come.
#[derive(Debug, Clone, Copy, PartialEq, Eq, Structural)]
pub enum MessageStatus {
    Streaming,
    Complete,
}

/// One part of a message.
#[derive(Debug, Clone, PartialEq, Eq)]
pub enum MessagePart {
    Text { id: String, text: String },
}

/// One message of a transcript.
#[derive(Debug, Clone)]
pub struct SessionMessageEntry {
    pub id: String,
    pub role: MessageRole,
    pub parts: Vec<MessagePart>,
    pub created_at: i64,
    pub device_id: String,
    pub status: Option<MessageStatus>,
    pub continuation_of: Option<String>,
}

} // verus!
