//! Outgoing chat messages, Delta Chat-compatible.
//!
//! A message is assembled as an `OutgoingMail` (addresses, subject, extra
//! headers in order, plain-text body); the transport turns it into MIME.

use vstd::prelude::*;

use crate::email::opt_chars;
use crate::email::pgp::{
    armored_block, armored_message_of, armored_public_key_error, armored_public_key_valid,
    autocrypt_header_result, build_autocrypt_header, encrypt, encrypt_source, is_ascii_text,
    message_block,
};
use crate::text::{chars_of, extend_str, starts_with, string_of};

verus! {

/// `Mailbox::from_str` of the `lettre` crate: the `Display` text of its error,
/// or `None` where `addr` parses as a mailbox.
pub uninterp spec fn mailbox_parse_error(addr: Seq<char>) -> Option<Seq<char>>;

/// Parses `addr` as a `lettre` mailbox (`Mailbox::from_str`); returns the
/// error's `Display` text. Claimed: the result is `mailbox_parse_error(addr)`.
#[verifier::external_body]
pub(crate) fn mailbox_error(addr: &str) -> (r: Option<String>)
    ensures
        opt_chars(r) == mailbox_parse_error(addr@),
{
    match addr.parse::<lettre::message::Mailbox>() {
        Ok(_) => None,
        Err(e) => Some(e.to_string()),
    }
}

/// A header name and value.
pub open spec fn header_view(h: (String, String)) -> (Seq<char>, Seq<char>) {
    (h.0@, h.1@)
}

/// A message ready for the transport.
#[derive(Debug)]
pub struct OutgoingMail {
    pub from: String,
    pub to: String,
    pub subject: String,
    /// Extra headers, in the order they are written.
    pub headers: Vec<(String, String)>,
    /// The plain-text body.
    pub body: String,
}

impl OutgoingMail {
    /// The extra headers as character sequences.
    pub open spec fn headers_view(&self) -> Seq<(Seq<char>, Seq<char>)> {
        self.headers@.map_values(|h: (String, String)| header_view(h))
    }
}

/// `(name, value)` as a header.
fn header(name: &str, value: String) -> (r: (String, String))
    ensures
        header_view(r) == (name@, value@),
{
    (name.to_owned(), value)
}

/// Appends a header, keeping the character view in step.
pub(crate) fn push_header(headers: &mut Vec<(String, String)>, name: &str, value: String)
    ensures
        final(headers)@.map_values(|h: (String, String)| header_view(h)) == old(headers)@.map_values(
            |h: (String, String)| header_view(h),
        ).push((name@, value@)),
{
    let h = header(name, value);
    headers.push(h);
    assert(final(headers)@.map_values(|h: (String, String)| header_view(h)) =~= old(headers)@.map_values(
        |h: (String, String)| header_view(h),
    ).push((name@, value@)));
}

/// `prefix` followed by the `Display` text of an address error.
pub(crate) fn prefixed(prefix: &str, e: String) -> (r: String)
    ensures
        r@ == prefix@ + e@,
        starts_with(r@, prefix@),
{
    let mut v = chars_of(prefix);
    extend_str(&mut v, e.as_str());
    assert(v@.take(prefix@.len() as int) =~= prefix@);
    string_of(&v)
}

// ---------------------------------------------------------------------------
// Chat messages
// ---------------------------------------------------------------------------

/// Parameters for building an outgoing chat e-mail.
pub struct ChatMailParams<'a> {
    pub from_email: &'a str,
    pub to_email: &'a str,
    pub chat_name: &'a str,
    pub text: &'a str,
    /// Telegram chat id, used in Message-ID and X-TgAir-Telegram-Ref.
    pub chat_id: &'a str,
    /// Client-side local reference (timestamp or local message id).
    pub local_ref: &'a str,
    /// If Some, this e-mail is a reply to the given e-mail Message-ID.
    pub in_reply_to: Option<&'a str>,
    /// Armored public key of the sender, added as Autocrypt header.
    pub own_public_key: Option<&'a str>,
    /// Armored public key of the recipient; if present, the body is encrypted.
    pub recipient_public_key: Option<&'a str>,
}

/// The forms of the messages with which building a chat message fails.
pub open spec fn chat_error_form(m: Seq<char>) -> bool {
    ||| starts_with(m, "Invalid from address: "@)
    ||| starts_with(m, "Invalid to address: "@)
    ||| starts_with(m, "Parse public key: "@)
    ||| starts_with(m, "Serialize public key: "@)
    ||| starts_with(m, "Parse recipient key: "@)
    ||| starts_with(m, "Encrypt error: "@)
    ||| starts_with(m, "Armor error: "@)
}

/// The subject of every chat message (opaque, as Delta Chat does).
pub open spec fn chat_subject() -> Seq<char> {
    "Chat Message"@
}

/// `<tgair-{chatId}-{localRef}@telegramail>`.
pub open spec fn chat_message_id(chat_id: Seq<char>, local_ref: Seq<char>) -> Seq<char> {
    "<tgair-"@ + chat_id + "-"@ + local_ref + "@telegramail>"@
}

/// `{chatId}:{localRef}`.
pub open spec fn telegram_ref(chat_id: Seq<char>, local_ref: Seq<char>) -> Seq<char> {
    chat_id + ":"@ + local_ref
}

/// The extra headers of a chat message: Message-ID, Chat-Version,
/// X-TgAir-Telegram-Ref, Chat-Group-Name, then Autocrypt when given, then
/// In-Reply-To and References when replying.
pub open spec fn chat_headers(p: ChatMailParams, autocrypt: Option<Seq<char>>) -> Seq<(Seq<char>, Seq<char>)> {
    let base = seq![
        ("Message-ID"@, chat_message_id(p.chat_id@, p.local_ref@)),
        ("Chat-Version"@, "1.0"@),
        ("X-TgAir-Telegram-Ref"@, telegram_ref(p.chat_id@, p.local_ref@)),
        ("Chat-Group-Name"@, p.chat_name@),
    ];
    let with_autocrypt = match autocrypt {
        Some(a) => base.push(("Autocrypt"@, a)),
        None => base,
    };
    match p.in_reply_to {
        Some(r) => with_autocrypt.push(("In-Reply-To"@, r@)).push(("References"@, r@)),
        None => with_autocrypt,
    }
}

/// The Autocrypt value of a chat message: the header built from the sender's
/// own key, when one is given and the header builds.
pub open spec fn chat_autocrypt(p: ChatMailParams) -> Option<Seq<char>> {
    match p.own_public_key {
        Some(k) => match autocrypt_header_result(p.from_email@, k@) {
            Ok(h) => Some(h),
            Err(_) => None,
        },
        None => None,
    }
}

/// The error with which building the Autocrypt header of the own key fails.
pub open spec fn chat_autocrypt_error(p: ChatMailParams) -> Option<Seq<char>> {
    match p.own_public_key {
        Some(k) => match autocrypt_header_result(p.from_email@, k@) {
            Ok(_) => None,
            Err(e) => Some(e),
        },
        None => None,
    }
}

/// The body of a chat message: the text, or an ASCII-armored OpenPGP message
/// that encrypts the text to the recipient's key.
pub open spec fn chat_body(p: ChatMailParams, body: Seq<char>) -> bool {
    match p.recipient_public_key {
        None => body == p.text@,
        Some(k) => armored_public_key_valid(k@) && is_ascii_text(body) && armored_block(
            body,
            message_block(),
        ) && armored_message_of(body, encrypt_source(p.text@, k@)),
    }
}

/// The message is the chat message of `p`.
pub open spec fn is_chat_mail(p: ChatMailParams, m: OutgoingMail) -> bool {
    &&& m.from@ == p.from_email@
    &&& m.to@ == p.to_email@
    &&& m.subject@ == chat_subject()
    &&& m.headers_view() == chat_headers(p, chat_autocrypt(p))
    &&& chat_body(p, m.body@)
}

/// Both addresses of `p` parse as mailboxes.
pub open spec fn addresses_ok(p: ChatMailParams) -> bool {
    mailbox_parse_error(p.from_email@) is None && mailbox_parse_error(p.to_email@) is None
}

/// Builds a Delta Chat-compatible outgoing chat message. The body is the text,
/// OpenPGP-encrypted to the recipient's key when one is given.
pub fn build_chat_message(p: &ChatMailParams) -> (r: Result<OutgoingMail, String>)
    ensures
        mailbox_parse_error(p.from_email@) matches Some(e) ==> (r matches Err(m) && m@
            == "Invalid from address: "@ + e),
        mailbox_parse_error(p.from_email@) is None ==> (mailbox_parse_error(p.to_email@) matches Some(
            e,
        ) ==> (r matches Err(m) && m@ == "Invalid to address: "@ + e)),
        addresses_ok(*p) ==> (chat_autocrypt_error(*p) matches Some(e) ==> (r matches Err(m) && m@
            == e)),
        (addresses_ok(*p) && chat_autocrypt_error(*p) is None) ==> match p.recipient_public_key {
            None => r is Ok,
            Some(k) => match armored_public_key_error(k@) {
                Some(e) => r matches Err(m) && m@ == "Parse recipient key: "@ + e,
                None => r matches Err(m) ==> starts_with(m@, "Encrypt error: "@) || starts_with(
                    m@,
                    "Armor error: "@,
                ),
            },
        },
        r matches Ok(m) ==> addresses_ok(*p) && chat_autocrypt_error(*p) is None && is_chat_mail(
            *p,
            m,
        ),
        r matches Err(m) ==> chat_error_form(m@),
{
    if let Some(e) = mailbox_error(p.from_email) {
        return Err(prefixed("Invalid from address: ", e));
    }
    if let Some(e) = mailbox_error(p.to_email) {
        return Err(prefixed("Invalid to address: ", e));
    }
    let mut message_id = chars_of("<tgair-");
    extend_str(&mut message_id, p.chat_id);
    extend_str(&mut message_id, "-");
    extend_str(&mut message_id, p.local_ref);
    extend_str(&mut message_id, "@telegramail>");
    let mut tg_ref = chars_of(p.chat_id);
    extend_str(&mut tg_ref, ":");
    extend_str(&mut tg_ref, p.local_ref);

    let mut headers: Vec<(String, String)> = Vec::new();
    push_header(&mut headers, "Message-ID", string_of(&message_id));
    push_header(&mut headers, "Chat-Version", "1.0".to_owned());
    push_header(&mut headers, "X-TgAir-Telegram-Ref", string_of(&tg_ref));
    push_header(&mut headers, "Chat-Group-Name", p.chat_name.to_owned());
    if let Some(pub_key) = p.own_public_key {
        let a = match build_autocrypt_header(p.from_email, pub_key) {
            Ok(a) => a,
            Err(e) => return Err(e),
        };
        push_header(&mut headers, "Autocrypt", a);
    }
    if let Some(reply_to) = p.in_reply_to {
        push_header(&mut headers, "In-Reply-To", reply_to.to_owned());
        push_header(&mut headers, "References", reply_to.to_owned());
    }
    let body = match p.recipient_public_key {
        Some(rec_key) => match encrypt(p.text, rec_key) {
            Ok(c) => c,
            Err(e) => return Err(e),
        },
        None => p.text.to_owned(),
    };
    let m = OutgoingMail {
        from: p.from_email.to_owned(),
        to: p.to_email.to_owned(),
        subject: "Chat Message".to_owned(),
        headers,
        body,
    };
    assert(chat_headers(*p, chat_autocrypt(*p)) =~= m.headers_view());
    Ok(m)
}

} // verus!
