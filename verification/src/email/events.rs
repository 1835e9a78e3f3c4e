//! Events reported to the front end.

use vstd::prelude::*;

verus! {

/// Emitted on `email:status`: IMAP connection lifecycle.
#[derive(Debug, Clone, PartialEq, Eq)]
pub struct EmailStatusEvent {
    pub status: EmailStatus,
    pub error: Option<String>,
}

/// The state of the IMAP connection.
#[derive(Debug, Clone, Copy, PartialEq, Eq)]
pub enum EmailStatus {
    Connected,
    Reconnecting,
    Disconnected,
}

/// Emitted on `email:message`: a new chat message arrived via e-mail.
#[derive(Debug, Clone, PartialEq, Eq)]
pub struct EmailMessageEvent {
    /// Sender e-mail address.
    pub from: String,
    /// Plain-text body (already decrypted if it was encrypted).
    pub text: String,
    /// Value of X-TgAir-Telegram-Ref if present (`chatId:localRef`).
    pub telegram_ref: Option<String>,
    /// Value of the Message-ID header.
    pub message_id: String,
    /// Value of the Chat-Group-Name header.
    pub chat_group_name: Option<String>,
    /// Value of the In-Reply-To header.
    pub in_reply_to: Option<String>,
    /// Autocrypt header value, if present (used for peer keyring update).
    pub autocrypt: Option<String>,
}

/// Emitted on `email:error`: a recoverable operational error.
#[derive(Debug, Clone, PartialEq, Eq)]
pub struct EmailErrorEvent {
    pub message: String,
}

/// Emitted on `email:handshake`: a contact request or acceptance arrived.
#[derive(Debug, Clone, PartialEq, Eq)]
pub struct EmailHandshakeEvent {
    /// "request" or "accept"
    pub kind: String,
    /// Sender e-mail address.
    pub from: String,
    /// Display name from the X-Telegramail-Display-Name header.
    pub display_name: Option<String>,
}

} // verus!
