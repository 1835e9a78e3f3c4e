//! Contact handshakes: a request to connect, and its acceptance.

use vstd::prelude::*;

use crate::email::mime::{mailbox_error, mailbox_parse_error, prefixed, push_header, OutgoingMail};
use crate::email::pgp::{autocrypt_header_result, build_autocrypt_header};
use crate::text::{chars_of, extend_str, string_of};

verus! {

/// The two kinds of handshake letter.
#[derive(Debug, Clone, Copy, PartialEq, Eq)]
pub enum HandshakeKind {
    Request,
    Accept,
}

impl HandshakeKind {
    /// The value of the X-Telegramail-Handshake header.
    pub fn as_str(&self) -> (r: &'static str)
        ensures
            r@ == (match self {
                HandshakeKind::Request => "request"@,
                HandshakeKind::Accept => "accept"@,
            }),
    {
        match self {
            HandshakeKind::Request => "request",
            HandshakeKind::Accept => "accept",
        }
    }
}

/// The subject of a contact handshake.
pub open spec fn handshake_subject() -> Seq<char> {
    "Telegramail Contact Request"@
}

/// The body of a contact handshake sent by `display_name`.
pub open spec fn handshake_body(display_name: Seq<char>) -> Seq<char> {
    display_name
        + " would like to connect with you via Telegramail.\n\nTo accept, open Telegramail and confirm this contact request.\n\nThis message was sent automatically by the Telegramail app."@
}

/// The extra headers of a handshake: Chat-Version, X-Telegramail-Handshake,
/// X-Telegramail-Display-Name, then Autocrypt when it could be built.
pub open spec fn handshake_headers(kind: Seq<char>, display_name: Seq<char>, autocrypt: Option<Seq<char>>) -> Seq<(Seq<char>, Seq<char>)> {
    let base = seq![
        ("Chat-Version"@, "1.0"@),
        ("X-Telegramail-Handshake"@, kind),
        ("X-Telegramail-Display-Name"@, display_name),
    ];
    match autocrypt {
        Some(a) => base.push(("Autocrypt"@, a)),
        None => base,
    }
}

/// The Autocrypt value of a handshake: the header built from the own key,
/// when one is given and the header builds; a key that fails is left out.
pub open spec fn handshake_autocrypt(from_email: Seq<char>, own_public_key: Option<Seq<char>>) -> Option<Seq<char>> {
    match own_public_key {
        Some(k) => match autocrypt_header_result(from_email, k) {
            Ok(h) => Some(h),
            Err(_) => None,
        },
        None => None,
    }
}

/// Builds a contact request or acceptance letter. An Autocrypt header is added
/// when the own key is given and the header can be built; otherwise it is left out.
pub fn build_handshake_message(
    from_email: &str,
    to_email: &str,
    display_name: &str,
    kind: &str,
    own_public_key: Option<&str>,
) -> (r: Result<OutgoingMail, String>)
    ensures
        mailbox_parse_error(from_email@) matches Some(e) ==> (r matches Err(m) && m@
            == "Invalid from: "@ + e),
        mailbox_parse_error(from_email@) is None ==> (mailbox_parse_error(to_email@) matches Some(
            e,
        ) ==> (r matches Err(m) && m@ == "Invalid to: "@ + e)),
        (mailbox_parse_error(from_email@) is None && mailbox_parse_error(to_email@) is None) ==> (
        r is Ok),
        r matches Ok(m) ==> {
            &&& m.from@ == from_email@
            &&& m.to@ == to_email@
            &&& m.subject@ == handshake_subject()
            &&& m.body@ == handshake_body(display_name@)
            &&& m.headers_view() == handshake_headers(
                kind@,
                display_name@,
                handshake_autocrypt(
                    from_email@,
                    match own_public_key {
                        Some(k) => Some(k@),
                        None => None,
                    },
                ),
            )
        },
{
    if let Some(e) = mailbox_error(from_email) {
        return Err(prefixed("Invalid from: ", e));
    }
    if let Some(e) = mailbox_error(to_email) {
        return Err(prefixed("Invalid to: ", e));
    }
    let mut headers: Vec<(String, String)> = Vec::new();
    push_header(&mut headers, "Chat-Version", "1.0".to_owned());
    push_header(&mut headers, "X-Telegramail-Handshake", kind.to_owned());
    push_header(&mut headers, "X-Telegramail-Display-Name", display_name.to_owned());
    let ghost own: Option<Seq<char>> = match own_public_key {
        Some(k) => Some(k@),
        None => None,
    };
    if let Some(pub_key) = own_public_key {
        if let Ok(a) = build_autocrypt_header(from_email, pub_key) {
            push_header(&mut headers, "Autocrypt", a);
        }
    }
    let mut body = chars_of(display_name);
    extend_str(
        &mut body,
        " would like to connect with you via Telegramail.\n\nTo accept, open Telegramail and confirm this contact request.\n\nThis message was sent automatically by the Telegramail app.",
    );
    let m = OutgoingMail {
        from: from_email.to_owned(),
        to: to_email.to_owned(),
        subject: "Telegramail Contact Request".to_owned(),
        headers,
        body: string_of(&body),
    };
    assert(handshake_headers(kind@, display_name@, handshake_autocrypt(from_email@, own)) =~= m.headers_view());
    Ok(m)
}

} // verus!
